use vstd::prelude::*;

use crate::error::Error;
use crate::textutil::push_char;

verus! {

broadcast use vstd::string::group_string_axioms;

#[verifier::external_type_specification]
#[verifier::external_body]
pub struct ExIconFamily(icns::IconFamily);

#[verifier::external_type_specification]
#[verifier::external_body]
pub struct ExIconType(icns::IconType);

#[verifier::external_type_specification]
#[verifier::external_body]
pub struct ExIcnsImage(icns::Image);

#[verifier::external_type_specification]
#[verifier::external_body]
pub struct ExIconDir(ico::IconDir);

#[verifier::external_type_specification]
#[verifier::external_body]
pub struct ExIcoImage(ico::IconImage);

/// The icon types an ICNS container holds, in the order the family
/// lists them.
pub uninterp spec fn icns_icon_types(f: icns::IconFamily) -> Seq<icns::IconType>;

/// The pixel size of the icon an ICNS container holds for a type.
pub uninterp spec fn icns_icon_dims(f: icns::IconFamily, t: icns::IconType) -> (u32, u32);

/// The pixel size a decoded ICNS image reports.
pub uninterp spec fn icns_image_dims(img: icns::Image) -> (u32, u32);

/// The sizes of an ICNS container's icons, in listing order.
pub open spec fn icns_size_seq(f: icns::IconFamily) -> Seq<(u64, u64)> {
    Seq::new(
        icns_icon_types(f).len(),
        |i: int|
            (
                icns_icon_dims(f, icns_icon_types(f)[i]).0 as u64,
                icns_icon_dims(f, icns_icon_types(f)[i]).1 as u64,
            ),
    )
}

/// The sizes of the icons an ICNS byte stream holds, in listing order:
/// parsing is a function of the bytes alone.
pub uninterp spec fn icns_sizes_of(bytes: Seq<u8>) -> Seq<(u64, u64)>;

/// Relies on `icns::IconFamily::read`: parses an ICNS container from
/// its bytes; the family — and with it its icon sizes — is a function
/// of the bytes alone.
#[verifier::external_body]
fn icns_read(bytes: &Vec<u8>) -> (r: Result<icns::IconFamily, Error>)
    ensures
        r matches Ok(f) ==> icns_size_seq(f) == icns_sizes_of(bytes@),
        r matches Err(e) ==> e matches Error::IconDecode(_),
{
    match icns::IconFamily::read(std::io::Cursor::new(bytes.as_slice())) {
        Ok(f) => Ok(f),
        Err(e) => Err(Error::IconDecode(e.to_string())),
    }
}

/// Relies on `icns::IconFamily::available_icons`: the icon types the
/// container holds, in its listing order.
#[verifier::external_body]
fn icns_available(family: &icns::IconFamily) -> (r: Vec<icns::IconType>)
    ensures
        r@ == icns_icon_types(*family),
{
    family.available_icons()
}

/// Relies on `icns::IconFamily::get_icon_with_type`: decodes one icon;
/// the decoded image is a function of the family and the type.
#[verifier::external_body]
fn icns_get_icon(family: &icns::IconFamily, icon_type: icns::IconType) -> (r: Result<
    icns::Image,
    Error,
>)
    ensures
        r matches Ok(img) ==> icns_image_dims(img) == icns_icon_dims(*family, icon_type),
        r matches Err(e) ==> e matches Error::IconDecode(_),
{
    match family.get_icon_with_type(icon_type) {
        Ok(img) => Ok(img),
        Err(e) => Err(Error::IconDecode(e.to_string())),
    }
}

/// Relies on `icns::Image::width`: a field read.
#[verifier::external_body]
fn icns_image_width(image: &icns::Image) -> (r: u32)
    ensures
        r == icns_image_dims(*image).0,
{
    image.width()
}

/// Relies on `icns::Image::height`: a field read.
#[verifier::external_body]
fn icns_image_height(image: &icns::Image) -> (r: u32)
    ensures
        r == icns_image_dims(*image).1,
{
    image.height()
}

/// Relies on `icns::Image::write_png`: the icon re-encoded as PNG bytes.
#[verifier::external_body]
fn icns_image_png(image: &icns::Image) -> (r: Result<Vec<u8>, Error>)
    ensures
        r matches Err(e) ==> e matches Error::IconDecode(_),
{
    let mut buf: Vec<u8> = Vec::new();
    match image.write_png(&mut buf) {
        Ok(()) => Ok(buf),
        Err(e) => Err(Error::IconDecode(e.to_string())),
    }
}

/// How many entries an ICO container holds.
pub uninterp spec fn ico_num_entries(d: ico::IconDir) -> nat;

/// The size of one ICO container entry.
pub uninterp spec fn ico_entry_dims(d: ico::IconDir, i: int) -> (u32, u32);

/// The sizes of an ICO container's entries, in entry order.
pub open spec fn ico_size_seq(d: ico::IconDir) -> Seq<(u64, u64)> {
    Seq::new(
        ico_num_entries(d) as nat,
        |i: int| (ico_entry_dims(d, i).0 as u64, ico_entry_dims(d, i).1 as u64),
    )
}

/// The sizes of the entries an ICO byte stream holds, in entry order:
/// parsing is a function of the bytes alone.
pub uninterp spec fn ico_sizes_of(bytes: Seq<u8>) -> Seq<(u64, u64)>;

/// Relies on `ico::IconDir::read`: parses an ICO container from its
/// bytes; the container — and with it its entry sizes — is a function
/// of the bytes alone.
#[verifier::external_body]
fn ico_read(bytes: &Vec<u8>) -> (r: Result<ico::IconDir, Error>)
    ensures
        r matches Ok(d) ==> ico_size_seq(d) == ico_sizes_of(bytes@),
        r matches Err(e) ==> e matches Error::IconDecode(_),
{
    match ico::IconDir::read(std::io::Cursor::new(bytes.as_slice())) {
        Ok(d) => Ok(d),
        Err(e) => Err(Error::IconDecode(e.to_string())),
    }
}

/// Relies on `ico::IconDir::entries`: how many entries the container holds.
#[verifier::external_body]
fn ico_entry_count(dir: &ico::IconDir) -> (r: usize)
    ensures
        r == ico_num_entries(*dir),
{
    dir.entries().len()
}

/// Relies on `ico::IconDirEntry::width` and `height`: field reads of
/// one entry's size.
#[verifier::external_body]
fn ico_entry_size(dir: &ico::IconDir, i: usize) -> (r: (u32, u32))
    requires
        i < ico_num_entries(*dir),
    ensures
        r == ico_entry_dims(*dir, i as int),
{
    let entry = &dir.entries()[i];
    (entry.width(), entry.height())
}

/// Relies on `ico::IconDirEntry::decode`: decodes one entry's image.
#[verifier::external_body]
fn ico_entry_decode(dir: &ico::IconDir, i: usize) -> (r: Result<ico::IconImage, Error>)
    requires
        i < ico_num_entries(*dir),
    ensures
        r matches Err(e) ==> e matches Error::IconDecode(_),
{
    match dir.entries()[i].decode() {
        Ok(img) => Ok(img),
        Err(e) => Err(Error::IconDecode(e.to_string())),
    }
}

/// Relies on `ico::IconImage::write_png`: the image re-encoded as PNG bytes.
#[verifier::external_body]
fn ico_image_png(image: &ico::IconImage) -> (r: Result<Vec<u8>, Error>)
    ensures
        r matches Err(e) ==> e matches Error::IconDecode(_),
{
    let mut buf: Vec<u8> = Vec::new();
    match image.write_png(&mut buf) {
        Ok(()) => Ok(buf),
        Err(e) => Err(Error::IconDecode(e.to_string())),
    }
}

/// Relies on `oxipng::optimize_from_memory`, run with `fix_errors` and
/// otherwise default options: the PNG recompressed.
#[verifier::external_body]
fn optimize_png(data: &Vec<u8>) -> (r: Result<Vec<u8>, Error>)
    ensures
        r matches Err(e) ==> e matches Error::IconDecode(_),
{
    let options = oxipng::Options { fix_errors: true, ..Default::default() };
    match oxipng::optimize_from_memory(data.as_slice(), &options) {
        Ok(out) => Ok(out),
        Err(e) => Err(Error::IconDecode(e.to_string())),
    }
}

/// What the first four bytes of an icon file announce.
#[derive(Debug, Clone, Copy, PartialEq, Eq, Structural)]
pub enum IconKind {
    Icns,
    Ico,
    Png,
    Unknown,
}

/// The container format the leading bytes announce: the ICNS tag, the
/// ICO tag, the PNG signature, or something to ignore.
pub open spec fn spec_icon_kind(b: Seq<u8>) -> IconKind {
    if b.len() < 4 {
        IconKind::Unknown
    } else if b[0] == 0x69u8 && b[1] == 0x63u8 && b[2] == 0x6eu8 && b[3] == 0x73u8 {
        IconKind::Icns
    } else if b[0] == 0x00u8 && b[1] == 0x00u8 && b[2] == 0x01u8 && b[3] == 0x00u8 {
        IconKind::Ico
    } else if b[0] == 0x89u8 && b[1] == 0x50u8 && b[2] == 0x4eu8 && b[3] == 0x47u8 {
        IconKind::Png
    } else {
        IconKind::Unknown
    }
}

/// Reads the container format off a file's first four bytes.
pub fn icon_kind(bytes: &Vec<u8>) -> (r: IconKind)
    ensures
        r == spec_icon_kind(bytes@),
{
    if bytes.len() < 4 {
        return IconKind::Unknown;
    }
    let b0 = bytes[0];
    let b1 = bytes[1];
    let b2 = bytes[2];
    let b3 = bytes[3];
    if b0 == 0x69 && b1 == 0x63 && b2 == 0x6e && b3 == 0x73 {
        IconKind::Icns
    } else if b0 == 0x00 && b1 == 0x00 && b2 == 0x01 && b3 == 0x00 {
        IconKind::Ico
    } else if b0 == 0x89 && b1 == 0x50 && b2 == 0x4e && b3 == 0x47 {
        IconKind::Png
    } else {
        IconKind::Unknown
    }
}

/// Whether the character is a decimal digit.
pub open spec fn is_digit(c: char) -> bool {
    '0' <= c && c <= '9'
}

/// The value of one digit.
pub open spec fn digit_val(c: char) -> nat {
    (c as nat - '0' as nat) as nat
}

/// The first position at or after `k` holding no digit (or the end).
pub open spec fn scan_digits(s: Seq<char>, k: int) -> int
    recommends
        0 <= k <= s.len(),
    decreases s.len() - k,
{
    if k >= s.len() || !is_digit(s[k]) {
        k
    } else {
        scan_digits(s, k + 1)
    }
}

/// The number a digit run denotes.
pub open spec fn digits_val(s: Seq<char>) -> nat
    decreases s.len(),
{
    if s.len() == 0 {
        0
    } else {
        digits_val(s.drop_last()) * 10 + digit_val(s.last())
    }
}

/// A sized PNG name: one digit run, `x`, a second digit run, `.png`,
/// and nothing else. The runs give the width and height.
pub open spec fn png_name_parse(s: Seq<char>) -> Option<(nat, nat)> {
    let k1 = scan_digits(s, 0);
    if k1 == 0 || k1 >= s.len() || s[k1] != 'x' {
        None
    } else {
        let k2 = scan_digits(s, k1 + 1);
        if k2 == k1 + 1 || s.subrange(k2, s.len() as int) != ".png"@ {
            None
        } else {
            Some((digits_val(s.subrange(0, k1)), digits_val(s.subrange(k1 + 1, k2))))
        }
    }
}

proof fn lemma_scan_digits_at(s: Seq<char>, a: int, m: int)
    requires
        0 <= a <= m <= s.len(),
        forall|j: int| a <= j < m ==> is_digit(#[trigger] s[j]),
        m == s.len() || !is_digit(s[m]),
    ensures
        scan_digits(s, a) == m,
    decreases m - a,
{
    if a < m {
        lemma_scan_digits_at(s, a + 1, m);
    }
}

/// Reads a digit run as a number; a value beyond what a machine word
/// holds is rejected.
#[verifier::loop_isolation(false)]
fn parse_digits(s: &str, a: usize, b: usize) -> (r: Option<u64>)
    requires
        a <= b,
        b <= s@.len(),
        forall|j: int| a <= j < b ==> is_digit(#[trigger] s@[j]),
    ensures
        match r {
            Some(v) => v as nat == digits_val(s@.subrange(a as int, b as int)),
            None => digits_val(s@.subrange(a as int, b as int)) > u64::MAX,
        },
{
    let mut value: u64 = 0;
    let mut i: usize = a;
    while i < b
        invariant
            a <= i <= b,
            value as nat == digits_val(s@.subrange(a as int, i as int)),
        decreases b - i,
    {
        let c = s.get_char(i);
        let d = (c as u32) - 48;
        proof {
            assert(is_digit(s@[i as int]));
            assert(d == digit_val(s@[i as int]));
        }
        if value > (u64::MAX - (d as u64)) / 10 {
            proof {
                assert(s@.subrange(a as int, i + 1 as int).drop_last() =~= s@.subrange(
                    a as int,
                    i as int,
                ));
                assert(s@.subrange(a as int, i + 1 as int).last() == s@[i as int]);
                assert((value as nat) * 10 + (d as nat) > u64::MAX) by (nonlinear_arith)
                    requires
                        value > (u64::MAX - (d as u64)) / 10,
                        d < 10,
                ;
                assert(digits_val(s@.subrange(a as int, i + 1 as int)) > u64::MAX);
                lemma_digits_val_grows(s@, a as int, i + 1 as int, b as int);
            }
            return None;
        }
        value = value * 10 + (d as u64);
        proof {
            assert(s@.subrange(a as int, i + 1 as int).drop_last() =~= s@.subrange(
                a as int,
                i as int,
            ));
            assert(s@.subrange(a as int, i + 1 as int).last() == s@[i as int]);
        }
        i += 1;
    }
    proof {
        assert(s@.subrange(a as int, b as int) =~= s@.subrange(a as int, b as int));
    }
    Some(value)
}

/// A longer digit run never denotes a smaller number.
proof fn lemma_digits_val_grows(s: Seq<char>, a: int, i: int, b: int)
    requires
        0 <= a <= i <= b <= s.len(),
    ensures
        digits_val(s.subrange(a, b)) >= digits_val(s.subrange(a, i)),
    decreases b - i,
{
    if i < b {
        lemma_digits_val_grows(s, a, i + 1, b);
        assert(s.subrange(a, i + 1).drop_last() =~= s.subrange(a, i));
        assert(digits_val(s.subrange(a, i + 1)) >= digits_val(s.subrange(a, i)));
    }
}

/// Reads `<width>x<height>.png` off a file name; anything else, or a
/// size beyond a machine word, reads as nothing.
#[verifier::loop_isolation(false)]
pub fn parse_png_size_name(name: &str) -> (r: Option<(u64, u64)>)
    ensures
        match r {
            Some((w, h)) => png_name_parse(name@) == Some((w as nat, h as nat)),
            None => png_name_parse(name@) is None || (png_name_parse(name@) matches Some(wh)
                && (wh.0 > u64::MAX || wh.1 > u64::MAX)),
        },
{
    let n = name.unicode_len();
    let mut k1: usize = 0;
    let mut stopped = false;
    while k1 < n && !stopped
        invariant
            k1 <= n,
            forall|j: int| 0 <= j < k1 ==> is_digit(#[trigger] name@[j]),
            stopped ==> k1 < n && !is_digit(name@[k1 as int]),
        decreases n - k1 + (if stopped { 0int } else { 1int }),
    {
        let c = name.get_char(k1);
        if '0' <= c && c <= '9' {
            k1 += 1;
        } else {
            stopped = true;
        }
    }
    proof {
        lemma_scan_digits_at(name@, 0, k1 as int);
    }
    if k1 == 0 || k1 >= n || name.get_char(k1) != 'x' {
        return None;
    }
    let mut k2: usize = k1 + 1;
    let mut stopped2 = false;
    while k2 < n && !stopped2
        invariant
            k1 + 1 <= k2 <= n,
            forall|j: int| k1 + 1 <= j < k2 ==> is_digit(#[trigger] name@[j]),
            stopped2 ==> k2 < n && !is_digit(name@[k2 as int]),
        decreases n - k2 + (if stopped2 { 0int } else { 1int }),
    {
        let c = name.get_char(k2);
        if '0' <= c && c <= '9' {
            k2 += 1;
        } else {
            stopped2 = true;
        }
    }
    proof {
        lemma_scan_digits_at(name@, k1 + 1 as int, k2 as int);
    }
    if k2 == k1 + 1 {
        return None;
    }
    let tail = name.substring_char(k2, n);
    proof {
        reveal_strlit(".png");
        assert(".png"@.len() == 4);
    }
    if !crate::textutil::str_eq(tail, ".png") {
        proof {
            assert(name@.subrange(k2 as int, n as int) != ".png"@);
        }
        return None;
    }
    let w = match parse_digits(name, 0, k1) {
        Some(v) => v,
        None => {
            return None;
        },
    };
    let h = match parse_digits(name, k1 + 1, k2) {
        Some(v) => v,
        None => {
            return None;
        },
    };
    Some((w, h))
}

/// The decimal digit character of one value below ten.
pub open spec fn spec_digit_char(d: nat) -> char {
    if d == 0 {
        '0'
    } else if d == 1 {
        '1'
    } else if d == 2 {
        '2'
    } else if d == 3 {
        '3'
    } else if d == 4 {
        '4'
    } else if d == 5 {
        '5'
    } else if d == 6 {
        '6'
    } else if d == 7 {
        '7'
    } else if d == 8 {
        '8'
    } else {
        '9'
    }
}

/// The decimal writing of a number.
pub open spec fn spec_decimal(n: nat) -> Seq<char>
    decreases n,
{
    if n < 10 {
        seq![spec_digit_char(n)]
    } else {
        spec_decimal(n / 10) + seq![spec_digit_char(n % 10)]
    }
}

fn digit_char(d: u64) -> (r: char)
    requires
        d < 10,
    ensures
        r == spec_digit_char(d as nat),
{
    if d == 0 {
        '0'
    } else if d == 1 {
        '1'
    } else if d == 2 {
        '2'
    } else if d == 3 {
        '3'
    } else if d == 4 {
        '4'
    } else if d == 5 {
        '5'
    } else if d == 6 {
        '6'
    } else if d == 7 {
        '7'
    } else if d == 8 {
        '8'
    } else {
        '9'
    }
}

/// The number written in decimal.
pub fn u64_to_string(n: u64) -> (r: String)
    ensures
        r@ == spec_decimal(n as nat),
    decreases n,
{
    if n < 10 {
        let mut s = String::new();
        push_char(&mut s, digit_char(n));
        proof {
            assert(s@ =~= seq![spec_digit_char(n as nat)]);
        }
        s
    } else {
        let mut s = u64_to_string(n / 10);
        push_char(&mut s, digit_char(n % 10));
        s
    }
}

/// Strict ordering of icon sizes: by width, then height.
pub open spec fn size_lt(a: (u64, u64), b: (u64, u64)) -> bool {
    a.0 < b.0 || (a.0 == b.0 && a.1 < b.1)
}

/// Whether the sizes stand in strictly ascending order.
pub open spec fn sizes_sorted(s: Seq<(u64, u64)>) -> bool {
    forall|i: int, j: int| 0 <= i < j < s.len() ==> size_lt(#[trigger] s[i], #[trigger] s[j])
}

/// One line of the size list.
pub open spec fn size_line(wh: (u64, u64)) -> Seq<char> {
    spec_decimal(wh.0 as nat) + "x"@ + spec_decimal(wh.1 as nat)
}

/// The size-list lines, in order.
pub open spec fn size_lines(s: Seq<(u64, u64)>) -> Seq<Seq<char>> {
    Seq::new(s.len(), |i: int| size_line(s[i]))
}

/// The lines joined with a newline between them.
pub open spec fn join_nl(items: Seq<Seq<char>>) -> Seq<char>
    decreases items.len(),
{
    if items.len() == 0 {
        Seq::empty()
    } else if items.len() == 1 {
        items[0]
    } else {
        items[0] + "\n"@ + join_nl(items.drop_first())
    }
}

proof fn lemma_join_nl_push(s: Seq<Seq<char>>, x: Seq<char>)
    requires
        s.len() >= 1,
    ensures
        join_nl(s.push(x)) == join_nl(s) + "\n"@ + x,
    decreases s.len(),
{
    if s.len() == 1 {
        reveal_with_fuel(join_nl, 2);
        assert(s.push(x).drop_first() =~= seq![x]);
        assert(join_nl(s.push(x)) =~= s[0] + "\n"@ + x);
    } else {
        lemma_join_nl_push(s.drop_first(), x);
        assert(s.push(x).drop_first() =~= s.drop_first().push(x));
        assert(join_nl(s.push(x)) =~= join_nl(s) + "\n"@ + x);
    }
}

/// The sizes of a run of transcoded icons, in order.
pub open spec fn out_sizes(v: Seq<IconOut>) -> Seq<(u64, u64)> {
    Seq::new(v.len(), |i: int| (v[i].width, v[i].height))
}

/// The sizes a sequence holds, as a set.
pub open spec fn sizes_set(s: Seq<(u64, u64)>) -> Set<(u64, u64)> {
    Set::new(|x: (u64, u64)| s.contains(x))
}

/// The first occurrence of each size not yet seen, in container order:
/// what a transcoding run emits.
pub open spec fn fresh_sizes(sizes: Seq<(u64, u64)>, seen: Set<(u64, u64)>) -> Seq<(u64, u64)>
    decreases sizes.len(),
{
    if sizes.len() == 0 {
        Seq::empty()
    } else if seen.contains(sizes[0]) {
        fresh_sizes(sizes.drop_first(), seen)
    } else {
        seq![sizes[0]] + fresh_sizes(sizes.drop_first(), seen.insert(sizes[0]))
    }
}

/// The collected sizes are exactly the starting sizes plus the sizes of
/// the emitted icons.
pub open spec fn gathered(
    start: Seq<(u64, u64)>,
    now: Seq<(u64, u64)>,
    v: Seq<IconOut>,
) -> bool {
    forall|x: (u64, u64)|
        now.contains(x) <==> (start.contains(x) || exists|i: int|
            0 <= i < v.len() && ((#[trigger] v[i]).width, v[i].height) == x)
}

/// Carries the gathered-output bookkeeping over one fresh size: the
/// collected sizes stay in step with the emitted icons.
proof fn lemma_fresh_push(
    start: Seq<(u64, u64)>,
    sizes_before: Seq<(u64, u64)>,
    sizes_after: Seq<(u64, u64)>,
    out_before: Seq<IconOut>,
    out_after: Seq<IconOut>,
    w: u64,
    h: u64,
)
    requires
        !sizes_before.contains((w, h)),
        forall|x: (u64, u64)|
            sizes_after.contains(x) <==> (sizes_before.contains(x) || x == (w, h)),
        gathered(start, sizes_before, out_before),
        forall|k: int| 0 <= k < out_before.len() ==> !start.contains(
            ((#[trigger] out_before[k]).width, out_before[k].height),
        ),
        forall|k: int, l: int| 0 <= k < l < out_before.len() ==> ((
        #[trigger] out_before[k]).width, out_before[k].height) != ((#[trigger] out_before[l]).width,
        out_before[l].height),
        out_after.len() == out_before.len() + 1,
        forall|k: int| 0 <= k < out_before.len() ==> #[trigger] out_after[k] == out_before[k],
        out_after.last().width == w && out_after.last().height == h,
    ensures
        gathered(start, sizes_after, out_after),
        forall|k: int| 0 <= k < out_after.len() ==> !start.contains(
            ((#[trigger] out_after[k]).width, out_after[k].height),
        ),
        forall|k: int, l: int| 0 <= k < l < out_after.len() ==> ((#[trigger] out_after[k]).width,
        out_after[k].height) != ((#[trigger] out_after[l]).width, out_after[l].height),
{
    let last = out_after.len() - 1;
    assert(!start.contains((w, h)));
    assert forall|x: (u64, u64)|
        sizes_after.contains(x) <==> (start.contains(x) || exists|k: int|
            0 <= k < out_after.len() && ((#[trigger] out_after[k]).width, out_after[k].height)
                == x) by {
        assert(gathered(start, sizes_before, out_before));
        if sizes_after.contains(x) {
            if x == (w, h) {
                assert((out_after[last].width, out_after[last].height) == x);
            } else {
                assert(sizes_before.contains(x));
                assert(start.contains(x) || exists|k: int|
                    0 <= k < out_before.len() && ((#[trigger] out_before[k]).width,
                    out_before[k].height) == x);
                if !start.contains(x) {
                    let k = choose|k: int|
                        0 <= k < out_before.len() && ((#[trigger] out_before[k]).width,
                        out_before[k].height) == x;
                    assert((out_after[k].width, out_after[k].height) == x);
                }
            }
        }
        if start.contains(x) {
            assert(sizes_before.contains(x));
        }
        if exists|k: int|
            0 <= k < out_after.len() && ((#[trigger] out_after[k]).width, out_after[k].height)
                == x {
            let k = choose|k: int|
                0 <= k < out_after.len() && ((#[trigger] out_after[k]).width,
                out_after[k].height) == x;
            if k < out_before.len() {
                assert((out_before[k].width, out_before[k].height) == x);
                assert(sizes_before.contains(x));
            } else {
                assert(x == (w, h));
            }
        }
    }
    assert forall|k: int, l: int|
        0 <= k < l < out_after.len() implies ((#[trigger] out_after[k]).width,
        out_after[k].height) != ((#[trigger] out_after[l]).width, out_after[l].height) by {
        if l < out_before.len() {
        } else {
            if k < out_before.len() {
                assert((out_before[k].width, out_before[k].height) != (w, h)) by {
                    assert(sizes_before.contains(
                        (out_before[k].width, out_before[k].height),
                    ));
                }
            }
        }
    }
}

/// One transcoded icon: its size and its optimized PNG bytes.
pub struct IconOut {
    pub width: u64,
    pub height: u64,
    pub png: Vec<u8>,
}

/// Collects each icon size once, whatever container it came from, and
/// remembers every size it has seen, in ascending order.
pub struct IconGenerator {
    pub sizes: Vec<(u64, u64)>,
}

impl IconGenerator {
    /// The recorded sizes stand in strictly ascending order, so each
    /// size is there at most once.
    pub open spec fn wf(self) -> bool {
        sizes_sorted(self.sizes@)
    }

    /// A generator that has seen no size yet.
    pub fn new() -> (r: IconGenerator)
        ensures
            r.sizes@.len() == 0,
            r.wf(),
    {
        IconGenerator { sizes: Vec::new() }
    }

    /// Records a size; true when it was new. The order is kept.
    #[verifier::loop_isolation(false)]
    pub fn insert_size(&mut self, w: u64, h: u64) -> (r: bool)
        requires
            old(self).wf(),
        ensures
            final(self).wf(),
            r == !old(self).sizes@.contains((w, h)),
            r ==> final(self).sizes@.len() == old(self).sizes@.len() + 1,
            r ==> (forall|x: (u64, u64)|
                final(self).sizes@.contains(x) <==> (old(self).sizes@.contains(x) || x == (w, h))),
            !r ==> *final(self) == *old(self),
    {
        let x = (w, h);
        let n = self.sizes.len();
        let mut idx: usize = 0;
        let mut stopped = false;
        while idx < n && !stopped
            invariant
                idx <= n,
                n == self.sizes@.len(),
                forall|j: int| 0 <= j < idx ==> size_lt(#[trigger] self.sizes@[j], (w, h)),
                stopped ==> idx < n && !size_lt(self.sizes@[idx as int], (w, h)),
            decreases n - idx + (if stopped { 0int } else { 1int }),
        {
            let cur = self.sizes[idx];
            if cur.0 < w || (cur.0 == w && cur.1 < h) {
                idx += 1;
            } else {
                stopped = true;
            }
        }
        if idx < n && self.sizes[idx].0 == w && self.sizes[idx].1 == h {
            proof {
                assert(self.sizes@.contains((w, h)));
            }
            return false;
        }
        proof {
            assert(idx < n ==> size_lt((w, h), self.sizes@[idx as int]));
            assert forall|j: int| 0 <= j < self.sizes@.len() implies #[trigger] self.sizes@[j]
                != x by {
                if j < idx {
                    assert(size_lt(self.sizes@[j], x));
                } else {
                    if idx < n && j > idx {
                        assert(size_lt(self.sizes@[idx as int], self.sizes@[j]));
                    }
                }
            }
            assert(!self.sizes@.contains(x));
        }
        let ghost before = self.sizes@;
        self.sizes.insert(idx, x);
        proof {
            assert(self.sizes@ =~= before.take(idx as int) + seq![x] + before.skip(idx as int));
            let after = self.sizes@;
            assert forall|i: int, j: int| 0 <= i < j < after.len() implies size_lt(
                #[trigger] after[i],
                #[trigger] after[j],
            ) by {
                if i < idx && j < idx {
                    assert(after[i] == before[i] && after[j] == before[j]);
                } else if i < idx && j == idx {
                    assert(after[i] == before[i]);
                } else if i < idx && j > idx {
                    assert(after[i] == before[i] && after[j] == before[j - 1]);
                } else if i == idx && j > idx {
                    assert(after[j] == before[j - 1]);
                    if j - 1 > idx {
                        assert(size_lt(before[idx as int], before[j - 1]));
                        assert(size_lt(x, before[idx as int]));
                    } else {
                        assert(size_lt(x, before[idx as int]));
                    }
                } else {
                    assert(after[i] == before[i - 1] && after[j] == before[j - 1]);
                }
            }
            assert forall|y: (u64, u64)|
                self.sizes@.contains(y) <==> (before.contains(y) || y == x) by {
                let after = self.sizes@;
                if after.contains(y) {
                    let i = choose|i: int| 0 <= i < after.len() && after[i] == y;
                    if i < idx {
                        assert(before[i] == y);
                    } else if i > idx {
                        assert(before[i - 1] == y);
                    }
                }
                if before.contains(y) {
                    let i = choose|i: int| 0 <= i < before.len() && before[i] == y;
                    if i < idx {
                        assert(after[i] == y);
                    } else {
                        assert(after[i + 1] == y);
                    }
                }
                if y == x {
                    assert(after[idx as int] == y);
                }
            }
        }
        true
    }

    /// The size-list text: one `<width>x<height>` line per recorded
    /// size, in the order kept, with a newline between lines.
    #[verifier::loop_isolation(false)]
    pub fn size_list(&self) -> (r: String)
        ensures
            r@ == join_nl(size_lines(self.sizes@)),
    {
        let ghost lines = size_lines(self.sizes@);
        let n = self.sizes.len();
        if n == 0 {
            let r = String::new();
            proof {
                assert(r@ =~= join_nl(lines));
            }
            return r;
        }
        let first = self.sizes[0];
        let mut out = u64_to_string(first.0);
        push_char(&mut out, 'x');
        let second = u64_to_string(first.1);
        out.append(second.as_str());
        proof {
            reveal_strlit("x");
            assert(out@ =~= size_line(self.sizes@[0]));
            assert(lines.take(1) =~= seq![lines[0]]);
            assert(out@ =~= join_nl(lines.take(1)));
        }
        let mut i: usize = 1;
        while i < n
            invariant
                1 <= i <= n,
                n == self.sizes@.len(),
                lines == size_lines(self.sizes@),
                out@ == join_nl(lines.take(i as int)),
            decreases n - i,
        {
            push_char(&mut out, '\n');
            let wh = self.sizes[i];
            let ws = u64_to_string(wh.0);
            out.append(ws.as_str());
            push_char(&mut out, 'x');
            let hs = u64_to_string(wh.1);
            out.append(hs.as_str());
            proof {
                reveal_strlit("x");
                reveal_strlit("\n");
                lemma_join_nl_push(lines.take(i as int), lines[i as int]);
                assert(lines.take(i + 1 as int) =~= lines.take(i as int).push(lines[i as int]));
                assert(out@ =~= join_nl(lines.take(i + 1 as int)));
            }
            i += 1;
        }
        proof {
            assert(lines.take(n as int) =~= lines);
        }
        out
    }

    /// Transcodes one ICNS container: each icon of a size not yet seen
    /// comes out as an optimized PNG, and its size is recorded.
    #[verifier::loop_isolation(false)]
    #[verifier::rlimit(60)]
    pub fn handle_icns(&mut self, bytes: &Vec<u8>) -> (r: Result<Vec<IconOut>, Error>)
        requires
            old(self).wf(),
        ensures
            final(self).wf(),
            r matches Ok(v) ==> forall|i: int| 0 <= i < v@.len() ==> !old(self).sizes@.contains(
                ((#[trigger] v@[i]).width, v@[i].height),
            ),
            r matches Ok(v) ==> forall|i: int, j: int| 0 <= i < j < v@.len() ==> ((
            #[trigger] v@[i]).width, v@[i].height) != ((#[trigger] v@[j]).width, v@[j].height),
            r matches Ok(v) ==> gathered(old(self).sizes@, final(self).sizes@, v@),
            r matches Ok(v) ==> out_sizes(v@) == fresh_sizes(
                icns_sizes_of(bytes@),
                sizes_set(old(self).sizes@),
            ),
            r matches Err(e) ==> e matches Error::IconDecode(_),
    {
        let family = match icns_read(bytes) {
            Ok(f) => f,
            Err(e) => {
                proof {
                    assert(forall|x: (u64, u64)|
                        final(self).sizes@.contains(x) <==> old(self).sizes@.contains(x));
                }
                return Err(e);
            },
        };
        let types = icns_available(&family);
        let mut out: Vec<IconOut> = Vec::new();
        let ghost start = self.sizes@;
        let ghost ss = icns_sizes_of(bytes@);
        let ghost mut seen: Set<(u64, u64)> = sizes_set(start);
        proof {
            assert(ss.skip(0) =~= ss);
        }
        let n = types.len();
        let mut i: usize = 0;
        while i < n
            invariant
                i <= n,
                n == types@.len(),
                self.wf(),
                types@ == icns_icon_types(family),
                ss == icns_sizes_of(bytes@),
                ss == icns_size_seq(family),
                ss.len() == n,
                forall|x: (u64, u64)| seen.contains(x) <==> self.sizes@.contains(x),
                fresh_sizes(ss, sizes_set(start)) == out_sizes(out@) + fresh_sizes(
                    ss.skip(i as int),
                    seen,
                ),
                forall|k: int| 0 <= k < out@.len() ==> !start.contains(
                    ((#[trigger] out@[k]).width, out@[k].height),
                ),
                forall|k: int, l: int| 0 <= k < l < out@.len() ==> ((#[trigger] out@[k]).width,
                    out@[k].height) != ((#[trigger] out@[l]).width, out@[l].height),
                gathered(start, self.sizes@, out@),
            decreases n - i,
        {
            let icon = match icns_get_icon(&family, types[i]) {
                Ok(img) => img,
                Err(e) => {
                    return Err(e);
                },
            };
            let w = icns_image_width(&icon) as u64;
            let h = icns_image_height(&icon) as u64;
            proof {
                assert(ss[i as int] == (w, h));
                assert(ss.skip(i as int)[0] == ss[i as int]);
                assert(ss.skip(i as int).drop_first() =~= ss.skip(i + 1 as int));
            }
            let ghost sizes_before = self.sizes@;
            if self.insert_size(w, h) {
                let png = match icns_image_png(&icon) {
                    Ok(p) => p,
                    Err(e) => {
                        return Err(e);
                    },
                };
                let optimized = match optimize_png(&png) {
                    Ok(p) => p,
                    Err(e) => {
                        return Err(e);
                    },
                };
                let ghost out_before = out@;
                out.push(IconOut { width: w, height: h, png: optimized });
                proof {
                    lemma_fresh_push(start, sizes_before, self.sizes@, out_before, out@, w, h);
                    assert(!seen.contains(ss[i as int]));
                    assert(out_sizes(out@) =~= out_sizes(out_before).push((w, h)));
                    assert(out_sizes(out@) + fresh_sizes(ss.skip(i + 1 as int), seen.insert(
                        ss[i as int],
                    )) =~= out_sizes(out_before) + fresh_sizes(ss.skip(i as int), seen));
                }
                proof {
                    seen = seen.insert(ss[i as int]);
                    assert(forall|x: (u64, u64)| seen.contains(x) <==> self.sizes@.contains(x));
                }
            } else {
                proof {
                    assert(seen.contains(ss[i as int]));
                    assert(fresh_sizes(ss.skip(i as int), seen) == fresh_sizes(
                        ss.skip(i + 1 as int),
                        seen,
                    ));
                }
            }
            i += 1;
        }
        proof {
            assert(ss.skip(n as int) =~= Seq::<(u64, u64)>::empty());
            assert(out_sizes(out@) + fresh_sizes(ss.skip(n as int), seen) =~= out_sizes(out@));
        }
        Ok(out)
    }

    /// Transcodes one ICO container: each entry of a size not yet seen
    /// comes out as an optimized PNG, and its size is recorded.
    #[verifier::loop_isolation(false)]
    #[verifier::rlimit(60)]
    pub fn handle_ico(&mut self, bytes: &Vec<u8>) -> (r: Result<Vec<IconOut>, Error>)
        requires
            old(self).wf(),
        ensures
            final(self).wf(),
            r matches Ok(v) ==> forall|i: int| 0 <= i < v@.len() ==> !old(self).sizes@.contains(
                ((#[trigger] v@[i]).width, v@[i].height),
            ),
            r matches Ok(v) ==> forall|i: int, j: int| 0 <= i < j < v@.len() ==> ((
            #[trigger] v@[i]).width, v@[i].height) != ((#[trigger] v@[j]).width, v@[j].height),
            r matches Ok(v) ==> gathered(old(self).sizes@, final(self).sizes@, v@),
            r matches Ok(v) ==> out_sizes(v@) == fresh_sizes(
                ico_sizes_of(bytes@),
                sizes_set(old(self).sizes@),
            ),
            r matches Err(e) ==> e matches Error::IconDecode(_),
    {
        let dir = match ico_read(bytes) {
            Ok(d) => d,
            Err(e) => {
                proof {
                    assert(forall|x: (u64, u64)|
                        final(self).sizes@.contains(x) <==> old(self).sizes@.contains(x));
                }
                return Err(e);
            },
        };
        let count = ico_entry_count(&dir);
        let mut out: Vec<IconOut> = Vec::new();
        let ghost start = self.sizes@;
        let ghost ss = ico_sizes_of(bytes@);
        let ghost mut seen: Set<(u64, u64)> = sizes_set(start);
        proof {
            assert(ss.skip(0) =~= ss);
        }
        let mut i: usize = 0;
        while i < count
            invariant
                i <= count,
                count == ico_num_entries(dir),
                self.wf(),
                ss == ico_sizes_of(bytes@),
                ss == ico_size_seq(dir),
                ss.len() == count,
                forall|x: (u64, u64)| seen.contains(x) <==> self.sizes@.contains(x),
                fresh_sizes(ss, sizes_set(start)) == out_sizes(out@) + fresh_sizes(
                    ss.skip(i as int),
                    seen,
                ),
                forall|k: int| 0 <= k < out@.len() ==> !start.contains(
                    ((#[trigger] out@[k]).width, out@[k].height),
                ),
                forall|k: int, l: int| 0 <= k < l < out@.len() ==> ((#[trigger] out@[k]).width,
                    out@[k].height) != ((#[trigger] out@[l]).width, out@[l].height),
                gathered(start, self.sizes@, out@),
            decreases count - i,
        {
            let (w32, h32) = ico_entry_size(&dir, i);
            let w = w32 as u64;
            let h = h32 as u64;
            proof {
                assert(ss[i as int] == (w, h));
                assert(ss.skip(i as int)[0] == ss[i as int]);
                assert(ss.skip(i as int).drop_first() =~= ss.skip(i + 1 as int));
            }
            let ghost sizes_before = self.sizes@;
            if self.insert_size(w, h) {
                let image = match ico_entry_decode(&dir, i) {
                    Ok(img) => img,
                    Err(e) => {
                        return Err(e);
                    },
                };
                let png = match ico_image_png(&image) {
                    Ok(p) => p,
                    Err(e) => {
                        return Err(e);
                    },
                };
                let optimized = match optimize_png(&png) {
                    Ok(p) => p,
                    Err(e) => {
                        return Err(e);
                    },
                };
                let ghost out_before = out@;
                out.push(IconOut { width: w, height: h, png: optimized });
                proof {
                    lemma_fresh_push(start, sizes_before, self.sizes@, out_before, out@, w, h);
                    assert(!seen.contains(ss[i as int]));
                    assert(out_sizes(out@) =~= out_sizes(out_before).push((w, h)));
                    assert(out_sizes(out@) + fresh_sizes(ss.skip(i + 1 as int), seen.insert(
                        ss[i as int],
                    )) =~= out_sizes(out_before) + fresh_sizes(ss.skip(i as int), seen));
                }
                proof {
                    seen = seen.insert(ss[i as int]);
                    assert(forall|x: (u64, u64)| seen.contains(x) <==> self.sizes@.contains(x));
                }
            } else {
                proof {
                    assert(seen.contains(ss[i as int]));
                    assert(fresh_sizes(ss.skip(i as int), seen) == fresh_sizes(
                        ss.skip(i + 1 as int),
                        seen,
                    ));
                }
            }
            i += 1;
        }
        proof {
            assert(ss.skip(count as int) =~= Seq::<(u64, u64)>::empty());
            assert(out_sizes(out@) + fresh_sizes(ss.skip(count as int), seen) =~= out_sizes(out@));
        }
        Ok(out)
    }

    /// Takes a raw PNG under a `<width>x<height>.png` name: an unseen
    /// size comes out optimized and recorded; any other name is ignored.
    #[verifier::rlimit(60)]
    pub fn handle_png(&mut self, file_name: &str, bytes: &Vec<u8>) -> (r: Result<
        Vec<IconOut>,
        Error,
    >)
        requires
            old(self).wf(),
        ensures
            final(self).wf(),
            r matches Ok(v) ==> v@.len() <= 1,
            r matches Ok(v) ==> (png_name_parse(file_name@) is None ==> v@.len() == 0
                && *final(self) == *old(self)),
            r matches Ok(v) ==> forall|i: int| 0 <= i < v@.len() ==> !old(self).sizes@.contains(
                ((#[trigger] v@[i]).width, v@[i].height),
            ) && png_name_parse(file_name@) == Some((v@[i].width as nat, v@[i].height as nat)),
            r matches Ok(v) ==> gathered(old(self).sizes@, final(self).sizes@, v@),
            r matches Ok(v) ==> ((png_name_parse(file_name@) matches Some(wh) && wh.0
                <= u64::MAX && wh.1 <= u64::MAX && !old(self).sizes@.contains(
                ((wh.0 as u64), (wh.1 as u64)),
            )) ==> (v@.len() == 1 && v@[0].width as nat == (png_name_parse(file_name@)->0).0
                && v@[0].height as nat == (png_name_parse(file_name@)->0).1 && final(self).sizes@.contains(
                (v@[0].width, v@[0].height),
            ))),
            r matches Err(e) ==> e matches Error::IconDecode(_),
    {
        let mut out: Vec<IconOut> = Vec::new();
        let ghost start = old(self).sizes@;
        match parse_png_size_name(file_name) {
            Some((w, h)) => {
                let ghost sizes_before = self.sizes@;
                if self.insert_size(w, h) {
                    let optimized = match optimize_png(bytes) {
                        Ok(p) => p,
                        Err(e) => {
                            return Err(e);
                        },
                    };
                    let ghost out_before = out@;
                    out.push(IconOut { width: w, height: h, png: optimized });
                    proof {
                        lemma_fresh_push(
                            start,
                            sizes_before,
                            self.sizes@,
                            out_before,
                            out@,
                            w,
                            h,
                        );
                    }
                }
            },
            None => {},
        }
        Ok(out)
    }

    /// Dispatches one icon file on its leading bytes: ICNS and ICO
    /// containers are transcoded entry by entry, a raw PNG goes by its
    /// name, and anything else is ignored without an error.
    pub fn handle_file(&mut self, file_name: &str, bytes: &Vec<u8>) -> (r: Result<
        Vec<IconOut>,
        Error,
    >)
        requires
            old(self).wf(),
        ensures
            final(self).wf(),
            spec_icon_kind(bytes@) == IconKind::Unknown ==> (r matches Ok(v) && v@.len() == 0
                && *final(self) == *old(self)),
            spec_icon_kind(bytes@) == IconKind::Icns ==> (r matches Ok(v) ==> out_sizes(v@)
                == fresh_sizes(icns_sizes_of(bytes@), sizes_set(old(self).sizes@))),
            spec_icon_kind(bytes@) == IconKind::Ico ==> (r matches Ok(v) ==> out_sizes(v@)
                == fresh_sizes(ico_sizes_of(bytes@), sizes_set(old(self).sizes@))),
            spec_icon_kind(bytes@) == IconKind::Png ==> (r matches Ok(v) ==> ((png_name_parse(
                file_name@,
            ) matches Some(wh) && wh.0 <= u64::MAX && wh.1 <= u64::MAX
                && !old(self).sizes@.contains(((wh.0 as u64), (wh.1 as u64)))) ==> (v@.len() == 1
                && v@[0].width as nat == (png_name_parse(file_name@)->0).0
                && v@[0].height as nat == (png_name_parse(file_name@)->0).1
                && final(self).sizes@.contains((v@[0].width, v@[0].height))))),
            r matches Ok(v) ==> forall|i: int| 0 <= i < v@.len() ==> !old(self).sizes@.contains(
                ((#[trigger] v@[i]).width, v@[i].height),
            ),
            r matches Ok(v) ==> forall|i: int, j: int| 0 <= i < j < v@.len() ==> ((
            #[trigger] v@[i]).width, v@[i].height) != ((#[trigger] v@[j]).width, v@[j].height),
            r matches Ok(v) ==> gathered(old(self).sizes@, final(self).sizes@, v@),
            r matches Err(e) ==> e matches Error::IconDecode(_),
    {
        match icon_kind(bytes) {
            IconKind::Icns => self.handle_icns(bytes),
            IconKind::Ico => self.handle_ico(bytes),
            IconKind::Png => self.handle_png(file_name, bytes),
            IconKind::Unknown => {
                let out: Vec<IconOut> = Vec::new();
                Ok(out)
            },
        }
    }
}

/// The size list is strictly ascending by width, then height, and holds
/// exactly one line per recorded size.
pub proof fn lemma_size_list_sorted(g: IconGenerator)
    requires
        g.wf(),
    ensures
        forall|i: int, j: int|
            0 <= i < j < g.sizes@.len() ==> size_lt(#[trigger] g.sizes@[i], #[trigger] g.sizes@[j]),
        size_lines(g.sizes@).len() == g.sizes@.len(),
{
}

} // verus!
