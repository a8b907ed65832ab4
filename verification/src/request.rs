//! Requests for a render, as they arrive from outside: an armor word, a
//! render type word and the wanted width of the image in pixels.

use crate::atlas::RenderType;
use crate::codec::{encoded_raster, png_decoding};
use crate::error::RenderError;
use crate::raster::Raster;
use crate::render::{Render, RenderState};
use crate::text::same_text;
use vstd::prelude::*;

verus! {

/// The largest scale factor that a request can ask for.
pub const MAX_SCALE: usize = 36;

/// What a render request asks for.
pub struct RequestView {
    pub armored: bool,
    pub render_type: RenderType,
    pub size: nat,
}

/// A render request that has been checked: its scale factor is at least 1
/// and at most [`MAX_SCALE`].
#[derive(Clone, Copy, Debug)]
pub struct RenderRequest {
    armored: bool,
    render_type: RenderType,
    size: usize,
}

/// Why a checked request produced no file.
#[derive(Clone, Copy, Debug, PartialEq, Eq, Structural)]
pub enum ServeError {
    /// The render failed.
    Render(RenderError),
    /// The finished image could not be encoded.
    Encode,
}

impl View for RenderRequest {
    type V = RequestView;

    closed spec fn view(&self) -> RequestView {
        RequestView { armored: self.armored, render_type: self.render_type, size: self.size as nat }
    }
}

/// The armor flag that a word stands for: `armored` or `armorless`.
pub open spec fn armor_named(word: Seq<char>) -> Option<bool> {
    if word == "armored"@ {
        Some(true)
    } else if word == "armorless"@ {
        Some(false)
    } else {
        None
    }
}

/// The render type that a word stands for in a request: `head`, `bust` or
/// `body`. A request, unlike a render session, takes no other word.
pub open spec fn render_type_named(word: Seq<char>) -> Option<RenderType> {
    if word == "head"@ {
        Some(RenderType::Head)
    } else if word == "bust"@ {
        Some(RenderType::Bust)
    } else if word == "body"@ {
        Some(RenderType::Body)
    } else {
        None
    }
}

/// The scale factor for an image that is to be `width` pixels wide: a
/// sixteenth of the width, but at least 1 and at most 36. A width below 1
/// has no scale factor.
pub open spec fn size_for_width(width: int) -> Option<nat> {
    if width < 1 {
        None
    } else if width < 16 {
        Some(1)
    } else if width > 576 {
        Some(36)
    } else {
        Some((width / 16) as nat)
    }
}

/// The request that the three parts of its address stand for, if each of
/// them is acceptable.
pub open spec fn parsed(armor: Seq<char>, render_type: Seq<char>, width: int) -> Option<
    RequestView,
> {
    match (armor_named(armor), size_for_width(width), render_type_named(render_type)) {
        (Some(armored), Some(size), Some(render_type)) => Some(
            RequestView { armored, render_type, size },
        ),
        _ => None,
    }
}

/// The image that serving `request` from a decoded skin gives.
pub open spec fn served(request: RequestView, decoded: Option<(nat, nat, Seq<u8>)>) -> Result<
    Raster,
    RenderError,
> {
    match RenderState::opened_decoded(decoded, request.size) {
        Err(e) => Err(e),
        Ok(state) => match state.rendered(request.render_type, request.armored) {
            Err(e) => Err(e),
            Ok(done) => Ok(done.canvas),
        },
    }
}

/// Reads an armor flag from its word.
pub fn parse_armor(word: &str) -> (flag: Option<bool>)
    ensures
        flag == armor_named(word@),
{
    if same_text(word, "armored") {
        Some(true)
    } else if same_text(word, "armorless") {
        Some(false)
    } else {
        None
    }
}

/// Reads the render type of a request from its word.
pub fn parse_render_type(word: &str) -> (render_type: Option<RenderType>)
    ensures
        render_type == render_type_named(word@),
{
    if same_text(word, "head") {
        Some(RenderType::Head)
    } else if same_text(word, "bust") {
        Some(RenderType::Bust)
    } else if same_text(word, "body") {
        Some(RenderType::Body)
    } else {
        None
    }
}

/// The scale factor for an image that is to be `width` pixels wide.
pub fn scale_for_width(width: isize) -> (size: Option<usize>)
    ensures
        size is Some <==> size_for_width(width as int) is Some,
        size is Some ==> size.unwrap() == size_for_width(width as int).unwrap(),
        size is Some ==> 1 <= size.unwrap() <= MAX_SCALE,
{
    if width < 1 {
        None
    } else if width < 16 {
        Some(1)
    } else if width > 576 {
        Some(36)
    } else {
        Some((width / 16) as usize)
    }
}

impl RenderRequest {
    #[verifier::type_invariant]
    spec fn checked(&self) -> bool {
        1 <= self.size <= MAX_SCALE
    }

    /// Checks the three parts of a request's address. A part that is not
    /// acceptable makes the whole request unacceptable.
    pub fn parse(armor: &str, render_type: &str, width: isize) -> (request: Option<RenderRequest>)
        ensures
            request is Some <==> parsed(armor@, render_type@, width as int) is Some,
            request is Some ==> request.unwrap()@ == parsed(
                armor@,
                render_type@,
                width as int,
            ).unwrap(),
            request is Some ==> 1 <= request.unwrap()@.size <= MAX_SCALE,
    {
        let armored = match parse_armor(armor) {
            Some(flag) => flag,
            None => {
                return None;
            },
        };
        let size = match scale_for_width(width) {
            Some(size) => size,
            None => {
                return None;
            },
        };
        let render_type = match parse_render_type(render_type) {
            Some(render_type) => render_type,
            None => {
                return None;
            },
        };
        Some(RenderRequest { armored, render_type, size })
    }

    /// Whether the overlay layer is asked for.
    pub fn armored(&self) -> (armored: bool)
        ensures
            armored == self@.armored,
    {
        self.armored
    }

    /// The render type asked for.
    pub fn render_type(&self) -> (render_type: RenderType)
        ensures
            render_type == self@.render_type,
    {
        self.render_type
    }

    /// The scale factor asked for.
    pub fn size(&self) -> (size: usize)
        ensures
            size == self@.size,
            1 <= size <= MAX_SCALE,
    {
        proof {
            use_type_invariant(self);
        }
        self.size
    }

    /// Serves the request from a skin given as a PNG file: decodes the skin,
    /// renders the figure and encodes the image as a PNG file.
    pub fn serve(&self, skin_png: &[u8]) -> (res: Result<Vec<u8>, ServeError>)
        ensures
            match served(self@, png_decoding(skin_png@)) {
                Err(e) => res is Err && res->Err_0 == ServeError::Render(e),
                Ok(image) => match encoded_raster(image) {
                    Some(file) => res is Ok && res.unwrap()@ == file,
                    None => res is Err && res->Err_0 == ServeError::Encode,
                },
            },
    {
        proof {
            use_type_invariant(self);
            assert(512 * self.size * self.size <= usize::MAX) by (nonlinear_arith)
                requires
                    1 <= self.size <= 36,
                    usize::MAX >= 0xffff_ffff,
            ;
        }
        let session = match Render::new(skin_png, self.size) {
            Ok(session) => session,
            Err(e) => {
                return Err(ServeError::Render(e));
            },
        };
        let done = match session.render(self.render_type, self.armored) {
            Ok(done) => done,
            Err(e) => {
                return Err(ServeError::Render(e));
            },
        };
        match done.write_image() {
            Some(file) => Ok(file),
            None => Err(ServeError::Encode),
        }
    }
}

} // verus!
