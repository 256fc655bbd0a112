[package]
name = "git_branchless"
version = "0.1.0"
edition = "2021"
publish = false

[dependencies]
anyhow = "1"
tempfile = "3"
assert_cmd = "2"
git2 = { version = "*", default-features = false }
