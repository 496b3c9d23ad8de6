[package]
name = "spm_git_swap"
version = "0.1.0"
edition = "2021"
publish = false

[dependencies]
serde_json = "=1.0.154"
glob = "=0.3.4"
log = "=0.4.34"
thiserror = "=1.0.69"
structopt = "=0.3.26"
simple_logger = "=5.2.0"
git2 = "=0.21.0"
auth-git2 = "=0.6.0"
zip = { version = "=9.1.0", default-features = false }
