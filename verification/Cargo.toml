[package]
name = "csgo_runtime"
version = "0.1.0"
edition = "2021"
publish = false

[dependencies]
regex = "1"
log = "0.4"
winapi = { version = "0.3", features = ["basetsd", "minwindef", "ntdef", "errhandlingapi", "handleapi", "memoryapi", "processthreadsapi", "tlhelp32", "winnt", "wow64apiset"] }
