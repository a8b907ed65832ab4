//! Renders a posed two-dimensional avatar from a character skin atlas.
//!
//! A skin is a small RGBA bitmap that packs the textures of the body parts at
//! fixed coordinates. The compositor cuts the parts out, enlarges them by an
//! integer factor, mirrors the ones that stand for a missing opposite limb,
//! blends them onto a transparent canvas and crops the canvas to a head, a
//! bust or the whole body.
//!
//! The pixel work is in [`pixel`], [`raster`] and [`buffer`], the layout of
//! the atlas in [`atlas`], the drawing in [`compositor`] and the session
//! that ties them together in [`render`]. What holds of the selection of
//! rows, of single positions of the canvas and of finished images is proved
//! in [`selection`], [`painting`] and [`figure`]. PNG files are read and
//! written in [`codec`].
//!
//! The remaining modules hold the rules of the service that renders on
//! request: what a request may ask for ([`request`]), who may change stored
//! data ([`config`]), which document a key addresses ([`datakey`]), how the
//! game server frames its status message ([`osm`]), how long a downloaded
//! skin is kept ([`skins`]) and which splash line is shown ([`splash`]).

pub mod atlas;
pub mod buffer;
pub mod codec;
pub mod compositor;
pub mod config;
pub mod datakey;
pub mod error;
pub mod figure;
pub mod osm;
pub mod painting;
pub mod pixel;
pub mod raster;
pub mod render;
pub mod request;
pub mod selection;
pub mod skins;
pub mod splash;
pub mod text;

pub use crate::config::Config;
pub use crate::render::Render;
