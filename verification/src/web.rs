pub mod pages;
