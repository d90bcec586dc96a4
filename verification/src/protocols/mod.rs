pub mod a2s;
pub mod helpers;
pub mod openttd_server;
pub mod openttdm;
pub mod openttds;
pub mod q3m;
pub mod q3s;
