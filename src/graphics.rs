//! Graphics protocol selection and dispatch.
use vstd::prelude::*;
use vstd::string::*;
use crate::codec::{base64_encode, base64_of};
use crate::kitty;
use crate::kitty::{join, tile_frames};
use crate::sixel;
use crate::text::{contains, contains_seq, decimal_of, push_decimal, same_text};

verus! {

/// The inline graphics protocols a terminal may speak.
#[derive(Debug, Clone, Copy, PartialEq, Eq, Structural)]
pub enum GraphicsProtocol {
    /// The tile (bitmap transmission) protocol.
    Kitty,
    /// The legacy raster protocol.
    Sixel,
    /// The inline-file protocol.
    ITerm2,
    /// No pixel graphics: callers draw text instead.
    Fallback,
}

/// The protocol chosen for the process, carried to every encoder.
#[derive(Debug, Clone, Copy, PartialEq, Eq, Structural)]
pub struct GraphicsBackend {
    pub protocol: GraphicsProtocol,
}

/// The protocol that the terminal's environment announces, by priority: a
/// window id of the tile-protocol terminal, a terminal type naming it, the
/// inline-file vendor's program name, a pane id of an emulator that speaks the
/// tile protocol; otherwise none.
pub open spec fn protocol_for(
    window_id_set: bool,
    term: Option<Seq<char>>,
    term_program: Option<Seq<char>>,
    pane_id_set: bool,
) -> GraphicsProtocol {
    if window_id_set {
        GraphicsProtocol::Kitty
    } else if term matches Some(t) && contains_seq(t, "kitty"@) {
        GraphicsProtocol::Kitty
    } else if term_program matches Some(p) && p == "iTerm.app"@ {
        GraphicsProtocol::ITerm2
    } else if pane_id_set {
        GraphicsProtocol::Kitty
    } else {
        GraphicsProtocol::Fallback
    }
}

pub open spec fn opt_view(s: Option<&str>) -> Option<Seq<char>> {
    match s {
        Some(t) => Some(t@),
        None => None,
    }
}

/// Chooses the protocol from the environment: whether `KITTY_WINDOW_ID` is set,
/// the values of `TERM` and `TERM_PROGRAM`, and whether `WEZTERM_PANE` is set.
pub fn detect_protocol(
    window_id_set: bool,
    term: Option<&str>,
    term_program: Option<&str>,
    pane_id_set: bool,
) -> (r: GraphicsProtocol)
    ensures
        r == protocol_for(window_id_set, opt_view(term), opt_view(term_program), pane_id_set),
{
    if window_id_set {
        return GraphicsProtocol::Kitty;
    }
    if let Some(t) = term {
        if contains(t, "kitty") {
            return GraphicsProtocol::Kitty;
        }
    }
    if let Some(p) = term_program {
        if same_text(p, "iTerm.app") {
            return GraphicsProtocol::ITerm2;
        }
    }
    if pane_id_set {
        return GraphicsProtocol::Kitty;
    }
    GraphicsProtocol::Fallback
}

/// A window id of the tile-protocol terminal outranks every other signal, the
/// inline-file vendor's program name included.
pub proof fn lemma_window_id_first(
    term: Option<Seq<char>>,
    term_program: Option<Seq<char>>,
    pane_id_set: bool,
)
    ensures
        protocol_for(true, term, term_program, pane_id_set) == GraphicsProtocol::Kitty,
{
}

/// The inline-file sequence that carries an encoded payload, shown with its
/// proportions kept.
pub open spec fn inline_frame(payload: Seq<char>) -> Seq<char> {
    "\x1b]1337;File=inline=1;preserveAspectRatio=1:"@ + payload + "\x07"@
}

/// What `render_image` emits for each protocol.
pub open spec fn render_spec(protocol: GraphicsProtocol, width: u16, height: u16, data: Seq<u8>) -> Seq<char> {
    match protocol {
        GraphicsProtocol::Kitty => join(tile_frames(
            "f=100,a=T,t=d,c="@ + decimal_of(width as nat) + ",r="@ + decimal_of(height as nat),
            base64_of(data),
        )),
        GraphicsProtocol::ITerm2 => inline_frame(base64_of(data)),
        _ => Seq::empty(),
    }
}

impl GraphicsBackend {
    /// The backend for a protocol chosen beforehand.
    pub fn new(protocol: GraphicsProtocol) -> (r: Self)
        ensures
            r.protocol == protocol,
    {
        GraphicsBackend { protocol }
    }

    /// Chooses the backend from the environment values (see `detect_protocol`).
    pub fn from_environment(
        window_id_set: bool,
        term: Option<&str>,
        term_program: Option<&str>,
        pane_id_set: bool,
    ) -> (r: Self)
        ensures
            r.protocol == protocol_for(window_id_set, opt_view(term), opt_view(term_program), pane_id_set),
    {
        GraphicsBackend { protocol: detect_protocol(window_id_set, term, term_program, pane_id_set) }
    }

    /// The escape sequence that shows encoded image data over `width` by
    /// `height` cells; empty when the protocol has no encoder.
    pub fn render_image(&self, x: u16, y: u16, width: u16, height: u16, image_data: &[u8]) -> (r: String)
        ensures
            r@ == render_spec(self.protocol, width, height, image_data@),
    {
        match self.protocol {
            GraphicsProtocol::Kitty => kitty::render(x, y, width, height, image_data),
            GraphicsProtocol::Sixel => sixel::render(x, y, width, height, image_data),
            GraphicsProtocol::ITerm2 => self.render_iterm2(x, y, width, height, image_data),
            GraphicsProtocol::Fallback => String::new(),
        }
    }

    fn render_iterm2(&self, x: u16, y: u16, width: u16, height: u16, image_data: &[u8]) -> (r: String)
        ensures
            r@ == inline_frame(base64_of(image_data@)),
    {
        let encoded = base64_encode(image_data);
        let mut out = String::from_str("\x1b]1337;File=inline=1;preserveAspectRatio=1:");
        out.append(encoded.as_str());
        out.append("\x07");
        assert(out@ =~= inline_frame(base64_of(image_data@)));
        out
    }

    /// Whether the protocol can show pixels.
    pub fn supports_images(&self) -> (r: bool)
        ensures
            r == (self.protocol != GraphicsProtocol::Fallback),
    {
        self.protocol != GraphicsProtocol::Fallback
    }
}

/// Whether the terminal is known to accept the legacy raster protocol; no
/// query is made, so it never is.
pub fn check_sixel_support() -> (r: bool)
    ensures
        !r,
{
    false
}

} // verus!
