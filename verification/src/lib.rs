//! How far a DNS record has propagated across public resolvers.
pub mod address;
pub mod app;
pub mod clock;
pub mod config;
pub mod dns;
pub mod globe;
pub mod grouping;
pub mod history;
pub mod input;
pub mod keys;
pub mod message;
pub mod order;
pub mod panels;
pub mod records;
pub mod report;
pub mod resolvers;
pub mod rows;
pub mod runs;
pub mod scan;
pub mod sites;
pub mod sorting;
pub mod summary;
pub mod table;
pub mod text;
pub mod theme;
