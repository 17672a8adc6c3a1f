//! Publishing toolkit: a verified privacy classifier for media assets
//! (does a file's embedded metadata expose GPS information?) together
//! with the verified string utilities of the surrounding site tooling:
//! path formatting, robots directives, markdown preprocessing and
//! external-link rewriting.

pub mod text;
pub mod image_validator;
pub mod robots;
pub mod utils;
pub mod markdown;
pub mod logger;
pub mod credential;
pub mod http_client;
pub mod external_link;
