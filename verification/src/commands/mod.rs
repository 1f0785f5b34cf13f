pub mod connect;
pub mod dashboard;
pub mod disconnect;
pub mod emit;
pub mod init;
pub mod setup;
pub mod status;

pub use dashboard::DashboardArgs;
pub use emit::EmitArgs;
pub use init::InitArgs;
pub use setup::SetupArgs;
