pub mod catalog;
pub mod external_id;
pub mod pagination;
pub mod snowflake;
