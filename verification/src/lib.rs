pub mod bundle;
pub mod channel;
pub mod charm_source;
pub mod charm_url;
pub mod controller;
pub mod error;
pub mod kv;
pub mod local;
pub mod paths;
pub mod series;
pub mod store;
pub mod strutil;
