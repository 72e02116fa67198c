pub mod ratios;
