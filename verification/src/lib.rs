//! Verified core of the NEAR DevHub contracts: posts, proposals, RFPs,
//! communities, add-ons and label-based access control in the hub; the web
//! page it serves; its state migrations; and the contracts on the accounts
//! below it (the community factory, community and discussions accounts).

pub mod access_control;
pub mod account;
pub mod assoc;
pub mod changelog;
pub mod community;
pub mod community_contract;
pub mod community_factory;
pub mod contract;
pub mod discussions_contract;
pub mod index;
pub mod migrations;
pub mod notify;
pub mod post;
pub mod project;
pub mod proposal;
pub mod repost;
pub mod rfp;
pub mod table;
pub mod text;
pub mod web4;
pub mod workspace;
