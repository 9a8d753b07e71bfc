pub mod adopt;
pub mod answer;
pub mod attach;
pub mod clear;
pub mod diff;
pub mod doctor;
pub mod events;
pub mod fork;
pub mod interrupt;
pub mod logs;
pub mod ls;
pub mod new;
pub mod park;
pub mod rename;
pub mod result;
pub mod resume;
pub mod send;
pub mod setup;
pub mod status;
pub mod statusline;
pub mod sub;
pub mod stop;
pub mod sweep;
pub mod uninstall;
pub mod wait;
