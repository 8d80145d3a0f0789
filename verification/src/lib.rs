pub mod text;
pub mod decimal;
pub mod dates;
pub mod macos;
pub mod utils;
pub mod scripts;
pub mod db;
pub mod private_api;
pub mod transactions;
pub mod formatting;
pub mod serializers;
pub mod clock;
pub mod webhooks;
pub mod http;
pub mod config;
pub mod watcher;
pub mod json;
pub mod typedstream;
pub mod stream_model;
pub mod plist;
pub mod serialize;
pub mod live_photo;
pub mod markdown;
pub mod repository;
pub mod phone;
pub mod actions;
pub mod sending;
pub mod queries;
pub mod responses;
pub mod downloads;
pub mod reactions;
pub mod findmy;
pub mod statements;
pub mod chat_routes;
pub mod server_state;
pub mod bridge;
pub mod notifications;
pub mod server_routes;
pub mod facetime;
