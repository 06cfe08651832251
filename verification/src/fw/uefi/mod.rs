pub mod system_table;
