//! A software 3D rasterizer: a pixel buffer with depth testing, midpoint
//! line drawing, scan-line triangle fills with backface culling, the index
//! structure of tessellated solids, a stack of coordinate frames, and the
//! lexer and parser of the scripting language that drives them.

pub mod constants;
pub mod coordinate_stack;
pub mod interpolate;
pub mod lexer;
pub mod mesh;
pub mod output;
pub mod parser;
pub mod picture;
pub mod render;
pub mod scan_line;
pub mod script;
pub mod tokens;
