pub mod emit;
pub mod generate;
pub mod model;
pub mod text;

pub use generate::{assemble_method, forwarding_method, generate};
pub use model::{
    DeclFault, DeclValue, FieldMixins, GeneratedMethod, ImplBlock, MixinAttr, MixinError,
    TargetStruct,
};
pub use text::split_declaration;
