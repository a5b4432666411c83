[package]
name = "tilemap_core"
version = "0.1.0"
edition = "2021"
publish = false

[dependencies]
indexmap = "=2.14.2"
image = "=0.21.3"
tiled = "=0.9.4"
palette = "=0.3.0"
nalgebra = "=0.30.1"
ncollide2d = "=0.33.0"
rlua = "=0.15.3"
gfx = "=0.18.3"
gfx_window_glutin = "=0.31.0"
glutin = "=0.21.2"
