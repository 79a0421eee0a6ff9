[package]
name = "takhti"
version = "0.1.0"
edition = "2021"
publish = false

[dependencies]
anyhow = "=1.0.104"
tracing = "=0.1.44"
drm = "=0.14.1"
calloop = "=0.14.5"

[dependencies.smithay-drm-extras]
version = "=0.1.0"
default-features = false

[dependencies.smithay]
version = "=0.7.0"
default-features = false
features = ["backend_drm", "backend_gbm", "backend_egl", "backend_libinput", "backend_session", "renderer_gl", "renderer_multi", "desktop", "wayland_frontend"]
