//! Project provisioning and numbering: structured project numbers, identifier
//! normalisation, sequence allocation, template renaming, rename-aside of
//! conflicting artifacts and assembly of the export document.

pub mod text;
pub mod codec;
pub mod calendar;
pub mod allocator;
pub mod conflict;
pub mod layout;
pub mod provision;
pub mod export;
pub mod validation;
pub mod records;
pub mod settings;
