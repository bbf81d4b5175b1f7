[package]
name = "malloc_size_of"
version = "0.1.0"
edition = "2021"
publish = false

[dependencies]
arrayvec = "=0.7.8"
beach_map = "0.1"
euclid = "=0.22.14"
hashbrown = { version = "=0.9.1", default-features = false }
hibitset = { version = "=0.6.4", default-features = false }
lyon = "=0.17.10"
rstar = "=0.8.4"
serde_bytes = "=0.11.19"
serde_json = "=1.0.154"
smallbitvec = "=2.6.1"
smallvec = { version = "=1.16.4", features = ["const_generics"] }
specs = { version = "=0.16.1", default-features = false }
string_cache = "=0.8.9"
time = "=0.1.45"
url = "=2.5.8"
void = "=1.0.2"
winapi = { version = "=0.3.9", features = ["heapapi"] }
