[package]
name = "wuim"
version = "0.1.0"
edition = "2021"
publish = false

[dependencies]
anyhow = "=1.0.104"
serde = { version = "=1.0.229", features = ["derive"] }
serde_json = "=1.0.154"
jiff = "=0.2.43"
windows = { version = "=0.62.2", features = ["Win32_Foundation", "Win32_Devices_DeviceAndDriverInstallation", "Win32_Devices_Properties", "Win32_Devices_Usb", "Win32_System_IO", "Win32_System_Registry", "Win32_System_Threading", "Win32_UI_Shell", "Win32_UI_WindowsAndMessaging", "Win32_Globalization"] }
espflash = "=4.7.0"
serialport = "=4.10.1"
ch32rv-target = "0.8"
ch32rv-usb = "=0.26.0"
ch32rv-wchlink = "=0.26.0"
