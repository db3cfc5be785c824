//! Static site generation from a tree of markdown posts: loading posts,
//! indexing them by tag, paginating them and deciding when to rebuild.

pub mod error;
pub mod text;
pub mod paths;
pub mod page;
pub mod post;
pub mod head;
pub mod tag;
pub mod site;
pub mod context;
pub mod settings;
pub mod http;
pub mod blog;
pub mod watch;
pub mod markup;

pub use crate::blog::Mdblog;
pub use crate::error::Error;
pub use crate::head::PostHeaders;
pub use crate::page::Page;
pub use crate::post::Post;
pub use crate::settings::Settings;
pub use crate::tag::Tag;
