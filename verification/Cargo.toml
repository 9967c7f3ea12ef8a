[package]
name = "malebolge"
version = "0.1.0"
edition = "2021"
publish = false

[dependencies]
byteorder = "1"
clap = { version = "4", features = ["derive"] }
colored = "2"
iced-x86 = "1"
lazy_static = "1"
object = "*"
regex = "1"
thiserror = "1"
windows = { version = "0.48", features = ["Win32_Foundation", "Win32_Security", "Win32_System_Memory", "Win32_System_Threading", "Win32_System_Diagnostics_Debug", "Win32_System_LibraryLoader", "Win32_System_ProcessStatus", "Win32_System_Kernel", "Win32_System_SystemServices"] }
