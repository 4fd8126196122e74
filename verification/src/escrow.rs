pub mod model;
pub mod program;
pub mod refund;
pub mod state;

pub use model::World;
pub use program::EscrowProgram;
pub use refund::Refund;
pub use state::Escrow;
