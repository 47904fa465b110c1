//! Harvests a national parliament's public data feeds — terms, members,
//! sessions, sittings, sitting details, vote results and registration
//! results — into a relational record store. The store's idempotent write
//! policies, the streaming decode of each feed into typed records with
//! parent-to-child identifier arrays, and the dependency-ordered task
//! planning of the crawl are verified; fetching text over the network and
//! materializing downloaded documents stay with the caller.

pub mod dates;
pub mod events;
pub mod records;
pub mod upsert;
pub mod store;
pub mod saves;
pub mod queries;
pub mod numparse;
pub mod writes;
pub mod parliaments;
pub mod sessions;
pub mod voting_data;
pub mod registration_data;
pub mod meetings;
pub mod meeting_data;
pub mod politicians;
pub mod docs;
pub mod crawler;
pub mod laws;
