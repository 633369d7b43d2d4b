[package]
name = "bx_bluetooth_native"
version = "0.1.0"
edition = "2021"
publish = false

[dependencies]
uuid = "*"
btleplug = "*"
tokio = { version = "*", features = ["rt-multi-thread", "time"] }
wasm-bindgen = "*"
wasm-bindgen-futures = "*"
js-sys = "*"
web-sys = { version = "*", features = ["Window", "Navigator", "Bluetooth", "BluetoothDevice", "BluetoothRemoteGattServer", "BluetoothRemoteGattService", "BluetoothRemoteGattCharacteristic", "BluetoothCharacteristicProperties", "BluetoothLeScanFilterInit", "RequestDeviceOptions"] }
console_error_panic_hook = "*"
