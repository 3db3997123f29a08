pub mod weierstrass_decompress;
