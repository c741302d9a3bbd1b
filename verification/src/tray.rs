//! The notification-area icon: the requests it passes to the window, and
//! its image in the form the StatusNotifierItem protocol expects.
use vstd::prelude::*;

use std::sync::atomic::AtomicBool;

verus! {

/// Requests from the icon to the window. The icon lives in its own D-Bus
/// thread; the window reads the requests periodically, which keeps every
/// widget on the main thread.
pub struct Demandes {
    basculer: AtomicBool,
    quitter: AtomicBool,
}

impl Demandes {
    /// No request pending.
    pub fn new() -> Demandes {
        Demandes { basculer: AtomicBool::new(false), quitter: AtomicBool::new(false) }
    }

    /// Asks to show or hide the window (left click, or the menu entry).
    pub fn demander_basculer(&self) {
        self.basculer.store(true, std::sync::atomic::Ordering::Relaxed);
    }

    /// Asks to quit the application (menu entry).
    pub fn demander_quitter(&self) {
        self.quitter.store(true, std::sync::atomic::Ordering::Relaxed);
    }

    /// Takes the pending show-or-hide request, if any: the flag is cleared
    /// in the same atomic step.
    pub fn prendre_basculer(&self) -> bool {
        self.basculer.swap(false, std::sync::atomic::Ordering::Relaxed)
    }

    /// Takes the pending quit request, if any.
    pub fn prendre_quitter(&self) -> bool {
        self.quitter.swap(false, std::sync::atomic::Ordering::Relaxed)
    }
}

/// What the `png` crate decodes of an image: width, height, colour type and
/// bit depth (their PNG codes) and the bytes of the first frame.
pub uninterp spec fn png_decoding(bytes: Seq<u8>) -> Option<(u32, u32, u8, u8, Seq<u8>)>;

/// Decodes the first frame of a PNG image with the `png` crate (`Decoder`,
/// `read_info`, `next_frame`), the output buffer cut to the frame's size.
#[verifier::external_body]
fn decode_png(bytes: &[u8]) -> (r: Option<(u32, u32, u8, u8, Vec<u8>)>)
    ensures
        match r {
            Some((w, h, c, d, px)) => png_decoding(bytes@) == Some((w, h, c, d, px@)),
            None => png_decoding(bytes@) is None,
        },
{
    let mut reader = png::Decoder::new(std::io::Cursor::new(bytes)).read_info().ok()?;
    let mut buffer = vec![0; reader.output_buffer_size()?];
    let info = reader.next_frame(&mut buffer).ok()?;
    buffer.truncate(info.buffer_size());
    Some((info.width, info.height, info.color_type as u8, info.bit_depth as u8, buffer))
}

/// An icon as the StatusNotifierItem protocol takes it: ARGB32 pixels in
/// network order.
pub struct TrayIcon {
    pub width: i32,
    pub height: i32,
    pub data: Vec<u8>,
}

/// RGBA pixels rewritten as ARGB, four bytes at a time; a trailing
/// incomplete pixel is dropped.
pub open spec fn argb_of(px: Seq<u8>) -> Seq<u8> {
    Seq::new(
        ((px.len() / 4) * 4) as nat,
        |i: int|
            if i % 4 == 0 {
                px[i + 3]
            } else {
                px[i - 1]
            },
    )
}

pub fn rgba_to_argb(px: &[u8]) -> (r: Vec<u8>)
    ensures
        r@ == argb_of(px@),
{
    let n = px.len() / 4;
    let mut r: Vec<u8> = Vec::new();
    let mut m: usize = 0;
    while m < n
        invariant
            m <= n,
            n == px.len() / 4,
            r@.len() == 4 * m,
            forall|i: int| 0 <= i < 4 * m ==> #[trigger] r@[i] == (if i % 4 == 0 {
                px@[i + 3]
            } else {
                px@[i - 1]
            }),
        decreases n - m,
    {
        let base = 4 * m;
        assert(base + 3 < px.len()) by (nonlinear_arith)
            requires
                m < n,
                n == px.len() / 4,
                base == 4 * m,
        ;
        r.push(px[base + 3]);
        r.push(px[base]);
        r.push(px[base + 1]);
        r.push(px[base + 2]);
        assert forall|i: int| 0 <= i < 4 * (m + 1) implies #[trigger] r@[i] == (if i % 4 == 0 {
            px@[i + 3]
        } else {
            px@[i - 1]
        }) by {
            if i >= 4 * m {
                assert((4 * m) % 4 == 0) by (nonlinear_arith);
                assert((4 * m + 1) % 4 == 1) by (nonlinear_arith);
                assert((4 * m + 2) % 4 == 2) by (nonlinear_arith);
                assert((4 * m + 3) % 4 == 3) by (nonlinear_arith);
            }
        }
        m = m + 1;
    }
    assert(r@ =~= argb_of(px@));
    r
}

/// The icon drawn from a decoded image (width, height, PNG colour type and
/// bit depth, pixels), when it is 8-bit RGBA; none otherwise.
pub open spec fn icon_from(decoded: Option<(u32, u32, u8, u8, Seq<u8>)>) -> Option<(i32, i32, Seq<u8>)> {
    match decoded {
        Some((w, h, color, depth, px)) => if color == 6 && depth == 8 {
            Some((w as i32, h as i32, argb_of(px)))
        } else {
            None
        },
        None => None,
    }
}

/// The icon drawn from a PNG image, when it decodes to 8-bit RGBA; none
/// otherwise (the theme's icon is then used).
pub open spec fn tray_icon_of(bytes: Seq<u8>) -> Option<(i32, i32, Seq<u8>)> {
    icon_from(png_decoding(bytes))
}

pub open spec fn decoded_view(d: Option<(u32, u32, u8, u8, Vec<u8>)>) -> Option<(u32, u32, u8, u8, Seq<u8>)> {
    match d {
        Some((w, h, c, b, px)) => Some((w, h, c, b, px@)),
        None => None,
    }
}

/// The icon from what the PNG decoder gave: only 8-bit RGBA images are
/// taken (colour type 6, depth 8), their pixels rewritten as ARGB.
pub fn icone_depuis_decodage(decoded: Option<(u32, u32, u8, u8, Vec<u8>)>) -> (r: Option<TrayIcon>)
    ensures
        match r {
            Some(icon) => icon_from(decoded_view(decoded)) == Some((icon.width, icon.height, icon.data@)),
            None => icon_from(decoded_view(decoded)) is None,
        },
{
    let (width, height, color, depth, px) = match decoded {
        Some(d) => d,
        None => {
            return None;
        },
    };
    if color != 6 || depth != 8 {
        return None;
    }
    Some(TrayIcon { width: width as i32, height: height as i32, data: rgba_to_argb(px.as_slice()) })
}

pub fn icone_embarquee(png_bytes: &[u8]) -> (r: Option<TrayIcon>)
    ensures
        match r {
            Some(icon) => tray_icon_of(png_bytes@) == Some((icon.width, icon.height, icon.data@)),
            None => tray_icon_of(png_bytes@) is None,
        },
{
    let decoded = decode_png(png_bytes);
    proof {
        assert(decoded_view(decoded) == png_decoding(png_bytes@));
    }
    icone_depuis_decodage(decoded)
}

/// What the window does after the requests of the icon were taken.
#[derive(Debug, Clone, Copy, PartialEq, Eq, Structural)]
pub enum ActionFenetre {
    /// Remember the window's geometry and quit.
    Quitter,
    Masquer,
    Afficher,
    Rien,
}

/// The window's answer to the icon's requests: quitting wins over
/// anything else; a show-or-hide request hides a visible window and shows
/// a hidden one.
pub fn action_fenetre(quitter: bool, basculer: bool, visible: bool) -> (r: ActionFenetre)
    ensures
        r == (if quitter {
            ActionFenetre::Quitter
        } else if basculer {
            if visible {
                ActionFenetre::Masquer
            } else {
                ActionFenetre::Afficher
            }
        } else {
            ActionFenetre::Rien
        }),
{
    if quitter {
        ActionFenetre::Quitter
    } else if basculer {
        if visible {
            ActionFenetre::Masquer
        } else {
            ActionFenetre::Afficher
        }
    } else {
        ActionFenetre::Rien
    }
}

} // verus!
