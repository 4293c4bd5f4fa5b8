[package]
name = "mxc_service"
version = "0.7.0"
edition = "2021"
publish = false

[dependencies]
sha1 = "0.10"
uuid = { version = "1", features = ["v4"] }
serde = { version = "1", features = ["derive"] }
ciborium = "0.2"
clap = { version = "4", features = ["derive"] }
anyhow = "1"
thiserror = "2"
ctrlc = "3"
windows = { version = "0.61", features = ["Win32_Foundation", "Win32_NetworkManagement_WindowsFilteringPlatform", "Win32_Security", "Win32_Security_Authorization", "Win32_Security_Cryptography", "Win32_Security_Cryptography_Catalog", "Win32_Security_Cryptography_Sip", "Win32_Security_WinTrust", "Win32_Storage_FileSystem", "Win32_System_Com", "Win32_System_Rpc", "Win32_System_Services", "Win32_System_Threading"] }
windows-core = "0.61"
windows-service = "0.8"
