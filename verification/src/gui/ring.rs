//! Drawing a ring of rows in order, and when to send it to the screen.

use crate::gui::waterfall::scrolls_change_the_newest_rows_only;
use crate::gui::waterfall::Shade;
use crate::gui::waterfall::WaterfallImage;
use crate::tui::spectrum::FrameAxis;
use vstd::prelude::*;

verus! {

/// One horizontal band of the waterfall: the rows of the panel it covers, and
/// the rows of the texture that fill it. Both are counted in rows of the image,
/// the end not included.
#[derive(Debug, Clone, Copy, PartialEq, Eq)]
pub struct Band {
    pub screen: (u32, u32),
    pub uv: (u32, u32),
}

/// The bands of a ring whose newest row is at `head`.
pub open spec fn bands_of(head: int, height: int) -> Seq<Band> {
    if height == 0 {
        seq![]
    } else {
        let h = head % height;
        if h == 0 {
            seq![Band { screen: (0, height as u32), uv: (0, height as u32) }]
        } else {
            seq![
                Band { screen: (0, (height - h) as u32), uv: (h as u32, height as u32) },
                Band { screen: ((height - h) as u32, height as u32), uv: (0, h as u32) },
            ]
        }
    }
}

/// Where the ring's rows go on the screen. Row `head` of the texture is row
/// zero of the panel; the ring is drawn in two pieces because it wraps, and in
/// one where it does not.
pub fn ring_bands(head: u32, height: u32) -> (r: Vec<Band>)
    ensures
        r@ == bands_of(head as int, height as int),
{
    let mut bands: Vec<Band> = Vec::new();
    if height == 0 {
        assert(bands@ =~= bands_of(head as int, height as int));
        return bands;
    }
    let h: u32 = head % height;
    if h == 0 {
        bands.push(Band { screen: (0, height), uv: (0, height) });
    } else {
        bands.push(Band { screen: (0, height - h), uv: (h, height) });
        bands.push(Band { screen: (height - h, height), uv: (0, h) });
    }
    assert(bands@ =~= bands_of(head as int, height as int));
    bands
}

/// Whether a band draws a row of the texture.
pub open spec fn draws_row(band: Band, row: int) -> bool {
    band.uv.0 <= row < band.uv.1
}

/// Where a band draws a row of the texture.
pub open spec fn screen_row(band: Band, row: int) -> int {
    band.screen.0 + (row - band.uv.0)
}

/// Every row lands where the ring says: the newest at the top, and the one `n`
/// rows older `n` rows below it. Exactly one band draws it.
pub proof fn every_row_lands_where_the_ring_says(head: u32, height: u32, n: int)
    requires
        0 < height,
        0 <= n < height,
    ensures
        ({
            let row = (head + n) % (height as int);
            let bands = bands_of(head as int, height as int);
            &&& exists|i: int| 0 <= i < bands.len() && draws_row(#[trigger] bands[i], row)
            &&& forall|i: int|
                0 <= i < bands.len() && draws_row(#[trigger] bands[i], row) ==> screen_row(
                    bands[i],
                    row,
                ) == n
        }),
{
    let h = head as int % height as int;
    let row = (head + n) % (height as int);
    let bands = bands_of(head as int, height as int);
    assert(row == (if h + n < height {
        h + n
    } else {
        h + n - height
    })) by {
        vstd::arithmetic::div_mod::lemma_add_mod_noop(head as int, n, height as int);
        vstd::arithmetic::div_mod::lemma_small_mod(n as nat, height as nat);
        if h + n < height {
            vstd::arithmetic::div_mod::lemma_small_mod((h + n) as nat, height as nat);
        } else {
            vstd::arithmetic::div_mod::lemma_mod_add_multiples_vanish(
                h + n - height,
                height as int,
            );
            vstd::arithmetic::div_mod::lemma_small_mod(
                (h + n - height) as nat,
                height as nat,
            );
        }
    }
    if h == 0 || h + n < height {
        assert(draws_row(bands[0], row));
    } else {
        assert(draws_row(bands[1], row));
    }
}

/// The bands cover the panel from top to bottom, without a gap and without an
/// overlap, and a band is as high on the screen as in the texture.
pub proof fn the_bands_cover_the_panel_once(head: u32, height: u32)
    requires
        0 < height,
    ensures
        ({
            let bands = bands_of(head as int, height as int);
            &&& bands.len() > 0
            &&& bands[0].screen.0 == 0
            &&& bands.last().screen.1 == height
            &&& forall|i: int, j: int|
                0 <= i && j == i + 1 && j < bands.len() ==> (#[trigger] bands[i]).screen.1 == (
                #[trigger] bands[j]).screen.0
            &&& forall|i: int|
                0 <= i < bands.len() ==> {
                    let b = #[trigger] bands[i];
                    b.screen.0 < b.screen.1 && b.screen.1 - b.screen.0 == b.uv.1 - b.uv.0
                        && b.uv.1 <= height
                }
        }),
{
}

/// A head at or past the end wraps.
pub proof fn a_head_past_the_end_wraps(head: u32, height: u32)
    requires
        0 < height,
    ensures
        bands_of(head as int, height as int) == bands_of(
            head as int % height as int,
            height as int,
        ),
{
    vstd::arithmetic::div_mod::lemma_mod_twice(head as int, height as int);
}

/// How often the waterfall may be sent to the screen, in milliseconds.
pub const UPLOAD_INTERVAL_MS: u64 = 33;

/// What of the waterfall is on the screen.
#[derive(Debug, Clone, Copy, PartialEq, Eq, Structural)]
pub struct UploadState {
    pub has_texture: bool,
    /// The generation that was sent last.
    pub uploaded: Option<u64>,
    /// How often the image had been rebuilt when it was sent last.
    pub rebuilds: Option<u64>,
    pub uploaded_at_ms: Option<u64>,
}

/// What to send to the screen.
#[derive(Debug, Clone, Copy, PartialEq, Eq, Structural)]
pub enum Upload {
    Nothing,
    /// The newest rows alone, as many as this. Each goes to its own row of the
    /// texture.
    Rows(u32),
    Whole,
    /// The whole image, as a new texture.
    Create,
}

/// Whether enough time has passed since the last upload.
pub open spec fn is_due(state: UploadState, now_ms: u64) -> bool {
    match state.uploaded_at_ms {
        Some(at) => now_ms >= at + UPLOAD_INTERVAL_MS,
        None => true,
    }
}

/// What to send: nothing while the image has not changed or the last upload is
/// recent; else one row for each scroll since, unless the image was rebuilt,
/// was never sent, or has scrolled right round.
pub open spec fn upload_of(
    state: UploadState,
    generation: u64,
    rebuilds: u64,
    height: u32,
    now_ms: u64,
) -> Upload {
    if !state.has_texture {
        Upload::Create
    } else if state.uploaded == Some(generation) || !is_due(state, now_ms) {
        Upload::Nothing
    } else if state.rebuilds != Some(rebuilds) {
        Upload::Whole
    } else {
        match state.uploaded {
            Some(g) => {
                let scrolls = generation.wrapping_sub(g);
                if scrolls < height {
                    Upload::Rows(scrolls as u32)
                } else {
                    Upload::Whole
                }
            },
            None => Upload::Whole,
        }
    }
}

/// The rows of the texture after an upload of the image to it.
pub open spec fn sent(texture: Seq<Seq<u8>>, image: WaterfallImage, upload: Upload) -> Seq<
    Seq<u8>,
> {
    match upload {
        Upload::Nothing => texture,
        Upload::Rows(n) => Seq::new(
            image.height as nat,
            |r: int|
                if image.age(r) < n {
                    image.ring_row(r)
                } else {
                    texture[r]
                },
        ),
        Upload::Whole | Upload::Create => image.ring(),
    }
}

impl UploadState {
    /// Nothing was sent yet.
    pub fn new() -> (r: UploadState)
        ensures
            r == (UploadState {
                has_texture: false,
                uploaded: None,
                rebuilds: None,
                uploaded_at_ms: None,
            }),
    {
        UploadState { has_texture: false, uploaded: None, rebuilds: None, uploaded_at_ms: None }
    }

    /// Decide what to send, and remember it as sent.
    pub fn plan(&mut self, generation: u64, rebuilds: u64, height: u32, now_ms: u64) -> (r: Upload)
        ensures
            r == upload_of(*old(self), generation, rebuilds, height, now_ms),
            r == Upload::Nothing ==> *final(self) == *old(self),
            r != Upload::Nothing ==> *final(self) == (UploadState {
                has_texture: true,
                uploaded: Some(generation),
                rebuilds: Some(rebuilds),
                uploaded_at_ms: Some(now_ms),
            }),
    {
        let due: bool = match self.uploaded_at_ms {
            Some(at) => now_ms >= at && now_ms - at >= UPLOAD_INTERVAL_MS,
            None => true,
        };
        let scrolls: Option<u64> = match self.uploaded {
            Some(g) => Some(generation.wrapping_sub(g)),
            None => None,
        };
        let current: bool = match self.uploaded {
            Some(g) => g == generation,
            None => false,
        };
        let same_build: bool = match self.rebuilds {
            Some(b) => b == rebuilds,
            None => false,
        };
        let upload = if !self.has_texture {
            Upload::Create
        } else if current || !due {
            Upload::Nothing
        } else if !same_build {
            Upload::Whole
        } else {
            match scrolls {
                Some(n) => {
                    if n < height as u64 {
                        Upload::Rows(n as u32)
                    } else {
                        Upload::Whole
                    }
                },
                None => Upload::Whole,
            }
        };
        match upload {
            Upload::Nothing => {},
            _ => {
                self.has_texture = true;
                self.uploaded = Some(generation);
                self.rebuilds = Some(rebuilds);
                self.uploaded_at_ms = Some(now_ms);
            },
        }
        upload
    }
}

/// A rebuilt image is never patched by rows: once the image has been rebuilt
/// since the last upload, whatever is sent is the whole of it.
pub proof fn a_rebuilt_image_is_sent_whole(
    state: UploadState,
    generation: u64,
    rebuilds: u64,
    height: u32,
    now_ms: u64,
)
    requires
        state.rebuilds != Some(rebuilds),
    ensures
        !(upload_of(state, generation, rebuilds, height, now_ms) is Rows),
{
}

/// An upload brings the texture up to date, also where the image has scrolled
/// more than once since the last; and without a scroll there is none.
pub proof fn an_upload_brings_the_texture_up_to_date(
    state: UploadState,
    images: Seq<WaterfallImage>,
    rows: Seq<Seq<Shade>>,
    axes: Seq<FrameAxis>,
    now_ms: u64,
)
    requires
        images.len() == rows.len() + 1,
        axes.len() == rows.len(),
        rows.len() <= u64::MAX,
        forall|i: int| 0 <= i < images.len() ==> (#[trigger] images[i]).wf(),
        forall|i: int|
            0 <= i < rows.len() ==> images[i + 1].scrolled_by(
                images[i],
                #[trigger] rows[i],
                axes[i],
            ),
        state.has_texture,
        state.uploaded == Some(images[0].generation),
        state.rebuilds == Some(images[0].rebuilds),
        is_due(state, now_ms),
    ensures
        ({
            let image = images.last();
            let upload = upload_of(state, image.generation, image.rebuilds, image.height, now_ms);
            &&& sent(images[0].ring(), image, upload) == image.ring()
            &&& upload is Nothing <==> rows.len() == 0
        }),
{
    let image = images.last();
    let upload = upload_of(state, image.generation, image.rebuilds, image.height, now_ms);
    scrolls_change_the_newest_rows_only(images, rows, axes, 0);
    let texture = sent(images[0].ring(), image, upload);
    assert forall|r: int| 0 <= r < image.height implies texture[r] == image.ring()[r] by {
        scrolls_change_the_newest_rows_only(images, rows, axes, r);
    }
    assert(texture =~= image.ring());
}

/// An image is sent at most every 33 milliseconds, and once that time has
/// passed whenever it has changed; a first time at once.
pub proof fn a_change_is_sent_when_it_is_due(
    state: UploadState,
    generation: u64,
    rebuilds: u64,
    height: u32,
    now_ms: u64,
)
    ensures
        ({
            let upload = upload_of(state, generation, rebuilds, height, now_ms);
            &&& !state.has_texture ==> upload == Upload::Create
            &&& state.has_texture ==> (upload == Upload::Nothing <==> state.uploaded == Some(
                generation,
            ) || (state.uploaded_at_ms matches Some(at) && now_ms < at + 33))
            &&& state.has_texture ==> upload != Upload::Create
        }),
{
}

/// What is sent row by row goes each to its own place: a row that is among the
/// newest is that of the image, and every other row of the texture stays.
pub proof fn only_the_newest_rows_are_sent(
    texture: Seq<Seq<u8>>,
    image: WaterfallImage,
    n: u32,
    row: int,
)
    requires
        image.wf(),
        texture.len() == image.height,
        0 <= row < image.height,
    ensures
        ({
            let behind = if row >= image.head {
                row - image.head
            } else {
                row + image.height - image.head
            };
            let after = sent(texture, image, Upload::Rows(n));
            &&& after.len() == image.height
            &&& behind < n ==> after[row] == image.ring_row(row)
            &&& behind >= n ==> after[row] == texture[row]
            &&& sent(texture, image, Upload::Nothing) == texture
            &&& sent(texture, image, Upload::Whole)[row] == image.ring_row(row)
            &&& sent(texture, image, Upload::Create)[row] == image.ring_row(row)
        }),
{
    let h = image.height as int;
    let d = row - image.head;
    if d >= 0 {
        vstd::arithmetic::div_mod::lemma_small_mod(d as nat, h as nat);
    } else {
        vstd::arithmetic::div_mod::lemma_mod_add_multiples_vanish(d, h);
        vstd::arithmetic::div_mod::lemma_small_mod((d + h) as nat, h as nat);
    }
}

} // verus!
