pub mod sync;

pub use sync::{PendingUrlSync, UrlHydrated};
