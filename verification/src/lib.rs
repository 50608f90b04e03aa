pub mod derives;
pub mod enums;
pub mod errors;
pub mod formatting;
pub mod generics;
pub mod impls;
pub mod mods;
pub mod structs;
pub mod text;
pub mod traits;
pub mod types;
pub mod visibility;

pub use derives::Derive;
pub use derives::Derives;
pub use enums::Enum;
pub use enums::EnumOption;
pub use enums::EnumType;
pub use errors::ParseError;
pub use formatting::CamelCase;
pub use formatting::Indent;
pub use formatting::ScreamingSnakeCase;
pub use formatting::SnakeCase;
pub use formatting::StrConcat;
pub use impls::CodeLine;
pub use impls::Function;
pub use impls::Impl;
pub use generics::Generic;
pub use generics::Generics;
pub use generics::Lifetime;
pub use mods::Mod;
pub use structs::AnonField;
pub use structs::Field;
pub use structs::Struct;
pub use traits::Trait;
pub use traits::TraitFunction;
pub use traits::TraitImplementation;
pub use traits::TraitName;
pub use types::Type;
pub use types::TypeName;
pub use visibility::Visibility;
