[package]
name = "share_to_ytdlp"
version = "0.1.0"
edition = "2021"
publish = false

[dependencies]
eyre = "*"
color-eyre = "*"
chrono = "*"
tokio = { version = "*", features = ["rt-multi-thread"] }
facet = "*"
figue = "*"
arbitrary = { version = "*", features = ["derive"] }
teamy-cancellation = "*"
windows = { version = "*", features = ["Win32_Foundation", "Win32_System_Threading", "Win32_Storage_Packaging_Appx", "Win32_System_Console", "Win32_System_WinRT", "Win32_UI_WindowsAndMessaging", "ApplicationModel", "ApplicationModel_Activation", "ApplicationModel_DataTransfer", "ApplicationModel_DataTransfer_ShareTarget", "Foundation"] }
