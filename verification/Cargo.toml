[package]
name = "deranged"
version = "0.1.0"
edition = "2021"
publish = false

[dependencies]
arbitrary = "=1.5.0"
bigdecimal = "=0.4.11"
borsh = { version = "=1.8.1", features = ["unstable__schema"] }
bytemuck = "=1.25.2"
num-traits = "=0.2.19"
powerfmt = "=0.2.1"
proptest = "=1.12.0"
prost-types = "=0.14.4"
quickcheck = "=1.1.0"
rand = "=0.10.3"
redb = "=4.4.0"
schemars = "=1.2.3"
serde_core = "=1.0.229"
sqlx = { version = "=0.9.0", default-features = false, features = ["postgres", "bigdecimal"] }
zerocopy = { version = "=0.8.63", features = ["derive"] }
