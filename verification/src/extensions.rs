//! The format capability table.
//!
//! Each format the imaging library knows is listed with its recognized
//! file extensions and whether the library can decode and encode it. The
//! capability lookups are constant tables of the imaging library, taken
//! on trust; assembling and rendering the table is verified.

use image::ImageFormat;
use vstd::prelude::*;

verus! {

/// An image format of the capability table.
#[derive(Clone, Copy, PartialEq, Eq, Structural, Debug)]
pub enum FormatKind {
    Png,
    Jpeg,
    Gif,
    WebP,
    Pnm,
    Tiff,
    Tga,
    Dds,
    Bmp,
    Ico,
    Hdr,
    OpenExr,
    Farbfeld,
    Avif,
    Qoi,
}

/// The file extensions the imaging library recognizes for each format:
/// its constant table, transcribed.
pub open spec fn spec_format_extensions(k: FormatKind) -> Seq<Seq<char>> {
    match k {
        FormatKind::Png => seq!["png"@],
        FormatKind::Jpeg => seq!["jpg"@, "jpeg"@],
        FormatKind::Gif => seq!["gif"@],
        FormatKind::WebP => seq!["webp"@],
        FormatKind::Pnm => seq!["pbm"@, "pam"@, "ppm"@, "pgm"@],
        FormatKind::Tiff => seq!["tiff"@, "tif"@],
        FormatKind::Tga => seq!["tga"@],
        FormatKind::Dds => seq!["dds"@],
        FormatKind::Bmp => seq!["bmp"@],
        FormatKind::Ico => seq!["ico"@],
        FormatKind::Hdr => seq!["hdr"@],
        FormatKind::OpenExr => seq!["exr"@],
        FormatKind::Farbfeld => seq!["ff"@],
        FormatKind::Avif => seq!["avif"@],
        FormatKind::Qoi => seq!["qoi"@],
    }
}

/// Whether the imaging library can decode a format: every format of the
/// table but DDS.
pub open spec fn spec_format_readable(k: FormatKind) -> bool {
    k != FormatKind::Dds
}

/// Whether the imaging library can encode a format: every format of the
/// table but DDS and HDR.
pub open spec fn spec_format_writable(k: FormatKind) -> bool {
    k != FormatKind::Dds && k != FormatKind::Hdr
}

/// The views of a list of strings.
pub open spec fn string_views(v: Seq<String>) -> Seq<Seq<char>> {
    v.map_values(|s: String| s@)
}

/// Relies on image::ImageFormat::extensions_str: the recognized file name
/// extensions of a format, the constant match transcribed in
/// `spec_format_extensions`.
#[verifier::external_body]
fn extensions_text(kind: &FormatKind) -> (r: Vec<String>)
    ensures
        string_views(r@) == spec_format_extensions(*kind),
{
    let f = match kind {
        FormatKind::Png => ImageFormat::Png, FormatKind::Jpeg => ImageFormat::Jpeg,
        FormatKind::Gif => ImageFormat::Gif, FormatKind::WebP => ImageFormat::WebP,
        FormatKind::Pnm => ImageFormat::Pnm, FormatKind::Tiff => ImageFormat::Tiff,
        FormatKind::Tga => ImageFormat::Tga, FormatKind::Dds => ImageFormat::Dds,
        FormatKind::Bmp => ImageFormat::Bmp, FormatKind::Ico => ImageFormat::Ico,
        FormatKind::Hdr => ImageFormat::Hdr, FormatKind::OpenExr => ImageFormat::OpenExr,
        FormatKind::Farbfeld => ImageFormat::Farbfeld, FormatKind::Avif => ImageFormat::Avif,
        FormatKind::Qoi => ImageFormat::Qoi,
    };
    f.extensions_str().iter().map(|s| (*s).to_owned()).collect()
}

/// Relies on image::ImageFormat::can_read: a constant match in its
/// source, true for every format of the table but DDS.
#[verifier::external_body]
fn format_readable(kind: &FormatKind) -> (r: bool)
    ensures
        r == spec_format_readable(*kind),
{
    let f = match kind {
        FormatKind::Png => ImageFormat::Png, FormatKind::Jpeg => ImageFormat::Jpeg,
        FormatKind::Gif => ImageFormat::Gif, FormatKind::WebP => ImageFormat::WebP,
        FormatKind::Pnm => ImageFormat::Pnm, FormatKind::Tiff => ImageFormat::Tiff,
        FormatKind::Tga => ImageFormat::Tga, FormatKind::Dds => ImageFormat::Dds,
        FormatKind::Bmp => ImageFormat::Bmp, FormatKind::Ico => ImageFormat::Ico,
        FormatKind::Hdr => ImageFormat::Hdr, FormatKind::OpenExr => ImageFormat::OpenExr,
        FormatKind::Farbfeld => ImageFormat::Farbfeld, FormatKind::Avif => ImageFormat::Avif,
        FormatKind::Qoi => ImageFormat::Qoi,
    };
    f.can_read()
}

/// Relies on image::ImageFormat::can_write: a constant match in its
/// source, true for every format of the table but DDS and HDR.
#[verifier::external_body]
fn format_writable(kind: &FormatKind) -> (r: bool)
    ensures
        r == spec_format_writable(*kind),
{
    let f = match kind {
        FormatKind::Png => ImageFormat::Png, FormatKind::Jpeg => ImageFormat::Jpeg,
        FormatKind::Gif => ImageFormat::Gif, FormatKind::WebP => ImageFormat::WebP,
        FormatKind::Pnm => ImageFormat::Pnm, FormatKind::Tiff => ImageFormat::Tiff,
        FormatKind::Tga => ImageFormat::Tga, FormatKind::Dds => ImageFormat::Dds,
        FormatKind::Bmp => ImageFormat::Bmp, FormatKind::Ico => ImageFormat::Ico,
        FormatKind::Hdr => ImageFormat::Hdr, FormatKind::OpenExr => ImageFormat::OpenExr,
        FormatKind::Farbfeld => ImageFormat::Farbfeld, FormatKind::Avif => ImageFormat::Avif,
        FormatKind::Qoi => ImageFormat::Qoi,
    };
    f.can_write()
}

/// One row of the capability table.
pub struct ImageExtension {
    pub extension: String,
    pub readable: bool,
    pub writable: bool,
}

/// The abstract content of a row.
pub open spec fn entry_of(e: ImageExtension) -> (Seq<char>, bool, bool) {
    (e.extension@, e.readable, e.writable)
}

/// The abstract contents of a list of rows.
pub open spec fn entries_view(v: Seq<ImageExtension>) -> Seq<(Seq<char>, bool, bool)> {
    v.map_values(|e: ImageExtension| entry_of(e))
}

/// The rows a format contributes: one per recognized extension, all with
/// the format's capability flags.
pub open spec fn entry_seq(k: FormatKind) -> Seq<(Seq<char>, bool, bool)> {
    Seq::new(spec_format_extensions(k).len(), |i: int| (spec_format_extensions(k)[i], spec_format_readable(k), spec_format_writable(k)))
}

impl ImageExtension {
    /// The rows for one format: one per recognized extension.
    pub fn vec_from(kind: &FormatKind) -> (v: Vec<ImageExtension>)
        ensures
            entries_view(v@) == entry_seq(*kind),
    {
        let exts = extensions_text(kind);
        let readable = format_readable(kind);
        let writable = format_writable(kind);
        let mut v: Vec<ImageExtension> = Vec::new();
        let mut i: usize = 0;
        while i < exts.len()
            invariant
                i <= exts@.len(),
                string_views(exts@) == spec_format_extensions(*kind),
                readable == spec_format_readable(*kind),
                writable == spec_format_writable(*kind),
                entries_view(v@) == entry_seq(*kind).subrange(0, i as int),
            decreases exts@.len() - i,
        {
            proof {
                assert(spec_format_extensions(*kind)[i as int] == string_views(exts@)[i as int]);
            }
            let ext_i = exts[i].clone();
            let ghost gext = ext_i@;
            let ghost prev = v@;
            v.push(ImageExtension { extension: ext_i, readable, writable });
            proof {
                let ghost es = entry_seq(*kind);
                assert(string_views(exts@).len() == exts@.len());
                assert(es.len() == spec_format_extensions(*kind).len());
                assert(entries_view(prev).len() == prev.len());
                assert(prev.len() == i);
                assert(v@.len() == i + 1);
                assert(gext == spec_format_extensions(*kind)[i as int]);
                assert forall|j: int| 0 <= j < i + 1 implies entries_view(v@)[j] == es.subrange(
                    0,
                    i as int + 1,
                )[j] by {
                    assert(entries_view(v@)[j] == entry_of(v@[j]));
                    if j < i {
                        assert(v@[j] == prev[j]);
                        assert(entries_view(prev)[j] == entry_of(prev[j]));
                        assert(entries_view(prev)[j] == es.subrange(0, i as int)[j]);
                    } else {
                        assert(v@[j].extension@ == gext);
                        assert(es[j] == (
                            spec_format_extensions(*kind)[j],
                            spec_format_readable(*kind),
                            spec_format_writable(*kind),
                        ));
                    }
                }
                assert(entries_view(v@) =~= es.subrange(0, i as int + 1));
            }
            i = i + 1;
        }
        proof {
            assert(entry_seq(*kind).subrange(0, exts@.len() as int) =~= entry_seq(*kind));
        }
        v
    }

    pub fn get_extension(&self) -> (r: &String)
        ensures
            r@ == self.extension@,
    {
        &self.extension
    }

    pub fn is_readable(&self) -> (r: &bool)
        ensures
            *r == self.readable,
    {
        &self.readable
    }

    pub fn is_writable(&self) -> (r: &bool)
        ensures
            *r == self.writable,
    {
        &self.writable
    }
}

/// The order in which the capability table lists the formats.
pub open spec fn all_format_kinds() -> Seq<FormatKind> {
    seq![
        FormatKind::Png,
        FormatKind::Jpeg,
        FormatKind::Gif,
        FormatKind::WebP,
        FormatKind::Pnm,
        FormatKind::Tiff,
        FormatKind::Tga,
        FormatKind::Dds,
        FormatKind::Bmp,
        FormatKind::Ico,
        FormatKind::Hdr,
        FormatKind::OpenExr,
        FormatKind::Farbfeld,
        FormatKind::Avif,
        FormatKind::Qoi,
    ]
}

/// The rows of several formats, in order.
pub open spec fn entries_of_kinds(ks: Seq<FormatKind>) -> Seq<(Seq<char>, bool, bool)>
    decreases ks.len(),
{
    if ks.len() == 0 {
        Seq::empty()
    } else {
        entries_of_kinds(ks.drop_last()) + entry_seq(ks.last())
    }
}

/// All rows of the capability table, in order.
pub fn all_image_extensions() -> (v: Vec<ImageExtension>)
    ensures
        entries_view(v@) == entries_of_kinds(all_format_kinds()),
{
    let kinds: Vec<FormatKind> = vec![
        FormatKind::Png,
        FormatKind::Jpeg,
        FormatKind::Gif,
        FormatKind::WebP,
        FormatKind::Pnm,
        FormatKind::Tiff,
        FormatKind::Tga,
        FormatKind::Dds,
        FormatKind::Bmp,
        FormatKind::Ico,
        FormatKind::Hdr,
        FormatKind::OpenExr,
        FormatKind::Farbfeld,
        FormatKind::Avif,
        FormatKind::Qoi,
    ];
    proof {
        assert(kinds@ =~= all_format_kinds());
    }
    let mut v: Vec<ImageExtension> = Vec::new();
    let mut i: usize = 0;
    while i < kinds.len()
        invariant
            i <= kinds@.len(),
            kinds@ == all_format_kinds(),
            entries_view(v@) == entries_of_kinds(kinds@.subrange(0, i as int)),
        decreases kinds@.len() - i,
    {
        let mut row = ImageExtension::vec_from(&kinds[i]);
        let ghost prev = v@;
        v.append(&mut row);
        proof {
            assert(kinds@.subrange(0, i as int + 1).drop_last() =~= kinds@.subrange(0, i as int));
            assert(entries_view(v@) =~= entries_of_kinds(kinds@.subrange(0, i as int + 1)));
        }
        i = i + 1;
    }
    proof {
        assert(kinds@.subrange(0, kinds@.len() as int) =~= kinds@);
    }
    v
}

proof fn lemma_entries_first_prefix(ks: Seq<FormatKind>)
    requires
        ks.len() >= 1,
    ensures
        entries_of_kinds(ks).len() >= entry_seq(ks[0]).len(),
        entries_of_kinds(ks).subrange(0, entry_seq(ks[0]).len() as int) == entry_seq(ks[0]),
    decreases ks.len(),
{
    let l = entry_seq(ks[0]).len() as int;
    if ks.len() == 1 {
        assert(ks.drop_last().len() == 0);
        assert(entries_of_kinds(ks) =~= entry_seq(ks[0]));
        assert(entries_of_kinds(ks).subrange(0, l) =~= entry_seq(ks[0]));
    } else {
        lemma_entries_first_prefix(ks.drop_last());
        assert(ks.drop_last()[0] == ks[0]);
        assert(entries_of_kinds(ks).subrange(0, l) =~= entries_of_kinds(ks.drop_last()).subrange(
            0,
            l,
        ));
    }
}

/// The capability table always opens with the PNG row, and that row says
/// the format can be read and written.
pub proof fn lemma_table_lists_png()
    ensures
        entries_of_kinds(all_format_kinds()).len() >= 1,
        entries_of_kinds(all_format_kinds())[0] == ("png"@, true, true),
{
    let ks = all_format_kinds();
    assert(ks[0] == FormatKind::Png);
    lemma_entries_first_prefix(ks);
    assert(entry_seq(FormatKind::Png).len() == 1);
    assert(entry_seq(FormatKind::Png)[0] == ("png"@, true, true));
    assert(entries_of_kinds(ks).subrange(0, 1)[0] == entries_of_kinds(ks)[0]);
}

/// The rendered capability table is never empty: it holds its header
/// whatever the rows.
pub proof fn lemma_table_text_nonempty(entries: Seq<(Seq<char>, bool, bool)>)
    ensures
        table_text(entries).len() > 0,
    decreases entries.len(),
{
    reveal_strlit("+--------+-----------+----------+\n");
    if entries.len() > 0 {
        lemma_table_text_nonempty(entries.drop_last());
    }
}

/// `s` padded on the right with spaces to at least `w` characters.
pub open spec fn spec_pad(s: Seq<char>, w: nat) -> Seq<char>
    decreases w - s.len(),
{
    if s.len() >= w {
        s
    } else {
        spec_pad(s + seq![' '], w)
    }
}

/// The text of a capability flag.
pub open spec fn bool_text(b: bool) -> Seq<char> {
    if b {
        "true"@
    } else {
        "false"@
    }
}

/// One rendered row of the capability table.
pub open spec fn row_text(e: Seq<char>, rd: bool, wr: bool) -> Seq<char> {
    "| "@ + spec_pad(e, 6) + " | "@ + spec_pad(bool_text(rd), 9) + " | "@ + spec_pad(
        bool_text(wr),
        8,
    ) + " |\n"@
}

/// The rule between rows.
pub open spec fn splitter_text() -> Seq<char> {
    "+--------+-----------+----------+\n"@
}

/// The header row.
pub open spec fn header_text() -> Seq<char> {
    "| Format | Readable  | Writable |\n"@
}

/// The rendered capability table: header, then one row and one rule per
/// entry.
pub open spec fn table_text(entries: Seq<(Seq<char>, bool, bool)>) -> Seq<char>
    decreases entries.len(),
{
    if entries.len() == 0 {
        splitter_text() + header_text() + splitter_text()
    } else {
        table_text(entries.drop_last()) + row_text(
            entries.last().0,
            entries.last().1,
            entries.last().2,
        ) + splitter_text()
    }
}

/// Pads `s` on the right with spaces to at least `w` characters.
fn pad_to(s: &str, w: usize) -> (r: String)
    ensures
        r@ == spec_pad(s@, w as nat),
{
    let mut out: String = s.to_owned();
    let mut l: usize = s.unicode_len();
    while l < w
        invariant
            l == out@.len(),
            spec_pad(out@, w as nat) == spec_pad(s@, w as nat),
        decreases w - l,
    {
        let ghost prev = out@;
        out.append(" ");
        proof {
            reveal_strlit(" ");
            assert(out@ =~= prev + seq![' ']);
            assert(spec_pad(prev, w as nat) == spec_pad(prev + seq![' '], w as nat));
        }
        l = l + 1;
    }
    out
}

/// Appends one rendered row to the table.
fn push_row(out: &mut String, e: &ImageExtension)
    ensures
        final(out)@ == old(out)@ + row_text(e.extension@, e.readable, e.writable),
{
    out.append("| ");
    let p1 = pad_to(e.extension.as_str(), 6);
    out.append(p1.as_str());
    out.append(" | ");
    let b1: &str = if e.readable {
        "true"
    } else {
        "false"
    };
    let p2 = pad_to(b1, 9);
    out.append(p2.as_str());
    out.append(" | ");
    let b2: &str = if e.writable {
        "true"
    } else {
        "false"
    };
    let p3 = pad_to(b2, 8);
    out.append(p3.as_str());
    out.append(" |\n");
    proof {
        assert(out@ =~= old(out)@ + row_text(e.extension@, e.readable, e.writable));
    }
}

/// Renders the capability table for the given rows.
pub fn render_table(rows: &Vec<ImageExtension>) -> (r: String)
    ensures
        r@ == table_text(entries_view(rows@)),
{
    let ghost entries = entries_view(rows@);
    let mut out: String = "+--------+-----------+----------+\n".to_owned();
    out.append("| Format | Readable  | Writable |\n");
    out.append("+--------+-----------+----------+\n");
    proof {
        assert(entries.subrange(0, 0) =~= Seq::<(Seq<char>, bool, bool)>::empty());
        assert(out@ =~= table_text(entries.subrange(0, 0)));
    }
    let mut i: usize = 0;
    while i < rows.len()
        invariant
            i <= rows@.len(),
            entries == entries_view(rows@),
            out@ == table_text(entries.subrange(0, i as int)),
        decreases rows@.len() - i,
    {
        push_row(&mut out, &rows[i]);
        out.append("+--------+-----------+----------+\n");
        proof {
            assert(entries.subrange(0, i as int + 1).drop_last() =~= entries.subrange(0, i as int));
            assert(entries.subrange(0, i as int + 1).last() == entry_of(rows@[i as int]));
            assert(out@ =~= table_text(entries.subrange(0, i as int + 1)));
        }
        i = i + 1;
    }
    proof {
        assert(entries.subrange(0, rows@.len() as int) =~= entries);
    }
    out
}

} // verus!
