//! A bot framework: adapters feed events to plugins through a verified core.
pub mod text;
pub mod model;
pub mod command;
pub mod order;
pub mod sorting;
pub mod assoc;
pub mod observability;
pub mod dependency;
pub mod service;
pub mod plugin;
pub mod dispatch;
pub mod ranking;
pub mod routing;
pub mod route_order;
pub mod engine;
pub mod session;
pub mod dynamic;
pub mod runtime;
pub mod lifecycle;
pub mod event;
pub mod event_bus;
pub mod supervisor;
pub mod control_plane;
pub mod scheduler;
pub mod remote;
pub mod config_store;
pub mod onebot;
pub mod config;
pub mod resources;
pub mod extract;
pub mod config_tree;
pub mod storage;
pub mod console;
pub mod context;
pub mod plugin_services;
