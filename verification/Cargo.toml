[package]
name = "ra_assists"
version = "0.1.0"
edition = "2021"
publish = false

[dependencies]
ra_ap_base_db = "=0.0.326"
ra_ap_hir = "=0.0.326"
ra_ap_ide_db = "=0.0.326"
ra_ap_syntax = "=0.0.326"
ra_ap_vfs = "=0.0.326"
