//! The class file model and its binary codec.
pub mod annotation;
pub mod attr;
pub mod classfile;
pub mod codec;
pub mod exact;
pub mod frames;
pub mod insn;
pub mod laws;
pub mod member;
pub mod partial;
pub mod pool;
pub mod record;
pub mod records;
pub mod wire;

pub use self::codec::decode;
pub use self::codec::encode;
pub use self::codec::DecodeError;
pub use self::codec::EncodeError;
pub use self::laws::reencode;
pub use self::codec::Section;
pub use self::wire::FaultKind;
pub use self::wire::Flaw;
