//! Small building blocks: the CRC-16 engine, hexadecimal and decimal digits.
pub mod checksum;
pub mod digits;
pub mod encoder;
