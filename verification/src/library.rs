//! The local image library: the images the user uploaded, kept apart from what
//! is on the device. Its index lists the items newest first; each image is
//! stored as `<id>.<ext>`.

use vstd::prelude::*;
use crate::encoding::{
    base64_decode, base64_error, base64_text, data_uri, data_uri_text, is_base64,
    lemma_base64_injective, lemma_base64_no_comma,
};
use crate::text::{
    blank, chars_of, debug_quoted, debug_str, has_prefix, is_blank, push_str, starts_with, str_eq,
    string_from_chars,
};

verus! {

/// One image of the library.
#[derive(Debug, Clone)]
pub struct LibraryItem {
    pub id: String,
    /// The file name the user picked (display only).
    pub name: String,
    /// Milliseconds since the Unix epoch when it was added.
    pub added: u64,
    /// Extension of the stored image (`jpg`, `png`, `webp`, ...).
    pub ext: String,
}

/// The characters of `s` before the first `c` (all of `s` without one).
pub open spec fn before_char(s: Seq<char>, c: char) -> Seq<char>
    decreases s.len(),
{
    if s.len() == 0 {
        s
    } else if s[0] == c {
        Seq::empty()
    } else {
        seq![s[0]] + before_char(s.skip(1), c)
    }
}

/// The characters of `s` after the last `c` (all of `s` without one).
pub open spec fn after_last_char(s: Seq<char>, c: char) -> Seq<char>
    decreases s.len(),
{
    if s.len() == 0 {
        s
    } else if s.last() == c {
        Seq::empty()
    } else {
        after_last_char(s.drop_last(), c).push(s.last())
    }
}

proof fn lemma_before_char(s: Seq<char>, c: char, k: int)
    requires
        0 <= k <= s.len(),
        forall|j: int| 0 <= j < k ==> s[j] != c,
        k == s.len() || s[k] == c,
    ensures
        before_char(s, c) == s.take(k),
    decreases s.len(),
{
    if s.len() == 0 || k == 0 {
        assert(s.take(k) =~= Seq::<char>::empty());
    } else {
        let t = s.skip(1);
        assert forall|j: int| 0 <= j < k - 1 implies t[j] != c by {
            assert(t[j] == s[j + 1]);
        }
        if k - 1 < t.len() {
            assert(t[k - 1] == s[k]);
        }
        lemma_before_char(t, c, k - 1);
        assert(seq![s[0]] + t.take(k - 1) =~= s.take(k));
    }
}

proof fn lemma_after_last_char(s: Seq<char>, c: char, k: int)
    requires
        0 <= k <= s.len(),
        forall|j: int| k <= j < s.len() ==> s[j] != c,
        k == 0 || s[k - 1] == c,
    ensures
        after_last_char(s, c) == s.skip(k),
    decreases s.len(),
{
    if s.len() == k {
        assert(s.skip(k) =~= Seq::<char>::empty());
        if s.len() == 0 {
            assert(s =~= Seq::<char>::empty());
        }
    } else {
        let d = s.drop_last();
        lemma_after_last_char(d, c, k);
        assert(d.skip(k).push(s.last()) =~= s.skip(k));
    }
}

/// The MIME type a `data:` URL names: between `data:` and the first `;`.
/// Empty when the text does not start with `data:`.
pub open spec fn data_url_mime(url: Seq<char>) -> Seq<char> {
    if has_prefix(url, "data:"@) {
        before_char(url.skip(5), ';')
    } else {
        Seq::empty()
    }
}

/// The base64 payload of a `data:` URL: what follows its last `,`.
pub open spec fn data_url_payload(url: Seq<char>) -> Seq<char> {
    after_last_char(url, ',')
}

/// The extension an image of the given MIME type is stored under.
pub open spec fn ext_of_mime(mime: Seq<char>) -> Seq<char> {
    if mime == "image/png"@ {
        "png"@
    } else if mime == "image/webp"@ {
        "webp"@
    } else if mime == "image/gif"@ {
        "gif"@
    } else if mime == "image/bmp"@ {
        "bmp"@
    } else if mime == "image/tiff"@ {
        "tiff"@
    } else {
        "jpg"@
    }
}

/// The MIME type of a stored image, by its extension.
pub open spec fn mime_of_ext(ext: Seq<char>) -> Seq<char> {
    if ext == "png"@ {
        "image/png"@
    } else if ext == "webp"@ {
        "image/webp"@
    } else if ext == "gif"@ {
        "image/gif"@
    } else if ext == "bmp"@ {
        "image/bmp"@
    } else if ext == "tiff"@ {
        "image/tiff"@
    } else {
        "image/jpeg"@
    }
}

/// The message of a `data:` URL whose payload is not base64.
pub open spec fn decode_failure(url: Seq<char>) -> Seq<char> {
    "could not decode image data: "@ + base64_error(data_url_payload(url))
}

/// The characters of `v` from `start` up to the first `c`.
fn chars_before(v: &Vec<char>, start: usize, c: char) -> (out: Vec<char>)
    requires
        start <= v.len(),
    ensures
        out@ == before_char(v@.skip(start as int), c),
{
    let ghost t = v@.skip(start as int);
    let mut out: Vec<char> = Vec::new();
    let mut k: usize = start;
    while k < v.len()
        invariant
            start <= k <= v.len(),
            t == v@.skip(start as int),
            out@ == t.take(k - start),
            forall|j: int| 0 <= j < k - start ==> t[j] != c,
        ensures
            start <= k <= v.len(),
            out@ == t.take(k - start),
            forall|j: int| 0 <= j < k - start ==> t[j] != c,
            k == v.len() || v@[k as int] == c,
        decreases v.len() - k,
    {
        if v[k] == c {
            break;
        }
        assert(t[k - start] == v@[k as int]);
        out.push(v[k]);
        assert(t.take(k - start + 1) =~= t.take(k - start).push(v@[k as int]));
        k = k + 1;
    }
    proof {
        if k < v.len() {
            assert(t[k - start] == v@[k as int]);
        }
        lemma_before_char(t, c, k - start);
    }
    out
}

/// The characters of `v` after its last `c`.
fn chars_after_last(v: &Vec<char>, c: char) -> (out: Vec<char>)
    ensures
        out@ == after_last_char(v@, c),
{
    let mut k: usize = v.len();
    while k > 0
        invariant
            k <= v.len(),
            forall|j: int| k <= j < v.len() ==> v@[j] != c,
        ensures
            k <= v.len(),
            forall|j: int| k <= j < v.len() ==> v@[j] != c,
            k == 0 || v@[k - 1] == c,
        decreases k,
    {
        if v[k - 1] == c {
            break;
        }
        k = k - 1;
    }
    proof {
        lemma_after_last_char(v@, c, k as int);
    }
    let mut out: Vec<char> = Vec::new();
    let mut i: usize = k;
    while i < v.len()
        invariant
            k <= i <= v.len(),
            out@ == v@.subrange(k as int, i as int),
        decreases v.len() - i,
    {
        out.push(v[i]);
        assert(v@.subrange(k as int, i + 1) =~= v@.subrange(k as int, i as int).push(v@[i as int]));
        i = i + 1;
    }
    assert(v@.subrange(k as int, v.len() as int) =~= v@.skip(k as int));
    out
}

/// The MIME type named by a `data:` URL (empty when it names none).
pub fn mime_of_data_url(url: &str) -> (m: String)
    ensures
        m@ == data_url_mime(url@),
{
    let v = chars_of(url);
    let prefix = chars_of("data:");
    proof {
        reveal_strlit("data:");
    }
    if starts_with(&v, &prefix) {
        string_from_chars(&chars_before(&v, 5, ';'))
    } else {
        string_from_chars(&Vec::new())
    }
}

/// The base64 payload of a `data:` URL.
pub fn payload_of_data_url(url: &str) -> (p: String)
    ensures
        p@ == data_url_payload(url@),
{
    let v = chars_of(url);
    string_from_chars(&chars_after_last(&v, ','))
}

/// The extension under which an image of MIME type `mime` is stored;
/// `jpg` for any type not listed.
pub fn ext_for_mime(mime: &str) -> (e: String)
    ensures
        e@ == ext_of_mime(mime@),
{
    let e = if str_eq(mime, "image/png") {
        "png"
    } else if str_eq(mime, "image/webp") {
        "webp"
    } else if str_eq(mime, "image/gif") {
        "gif"
    } else if str_eq(mime, "image/bmp") {
        "bmp"
    } else if str_eq(mime, "image/tiff") {
        "tiff"
    } else {
        "jpg"
    };
    e.to_owned()
}

/// The MIME type of a stored image; `image/jpeg` for any extension not
/// listed.
pub fn mime_for(ext: &str) -> (m: &'static str)
    ensures
        m@ == mime_of_ext(ext@),
{
    if str_eq(ext, "png") {
        "image/png"
    } else if str_eq(ext, "webp") {
        "image/webp"
    } else if str_eq(ext, "gif") {
        "image/gif"
    } else if str_eq(ext, "bmp") {
        "image/bmp"
    } else if str_eq(ext, "tiff") {
        "image/tiff"
    } else {
        "image/jpeg"
    }
}

/// Decodes a `data:<mime>;base64,<payload>` URL into the bytes and the
/// extension to store them under. Fails exactly when the payload is not
/// base64.
pub fn decode_data_url(data_url: &str) -> (r: Result<(Vec<u8>, String), String>)
    ensures
        r is Ok <==> is_base64(data_url_payload(data_url@)),
        r matches Ok((bytes, ext)) ==> base64_text(bytes@) == data_url_payload(data_url@)
            && ext@ == ext_of_mime(data_url_mime(data_url@)),
        r matches Err(m) ==> m@ == decode_failure(data_url@),
{
    let mime = mime_of_data_url(data_url);
    let ext = ext_for_mime(mime.as_str());
    let payload = payload_of_data_url(data_url);
    match base64_decode(payload.as_str()) {
        Ok(bytes) => Ok((bytes, ext)),
        Err(e) => {
            let mut m = chars_of("could not decode image data: ");
            push_str(&mut m, e.as_str());
            Err(string_from_chars(&m))
        },
    }
}

/// The name an upload is listed under: the picked name, or `image` when it
/// is blank.
pub open spec fn display_name_text(name: Seq<char>) -> Seq<char> {
    if is_blank(name) {
        "image"@
    } else {
        name
    }
}

/// The name an upload is listed under.
pub fn display_name(name: String) -> (r: String)
    ensures
        r@ == display_name_text(name@),
{
    if blank(name.as_str()) {
        "image".to_owned()
    } else {
        name
    }
}

/// A lower-case hexadecimal digit.
pub open spec fn is_lower_hex(c: char) -> bool {
    ('0' <= c <= '9') || ('a' <= c <= 'f')
}

/// Whether `id` is the simple (unhyphenated) text of a random, version-4
/// UUID: 32 lower-case hexadecimal digits, the version digit `4` and the
/// variant digit one of `8`, `9`, `a`, `b`.
pub open spec fn is_random_uuid_text(id: Seq<char>) -> bool {
    &&& id.len() == 32
    &&& forall|i: int| 0 <= i < 32 ==> is_lower_hex(#[trigger] id[i])
    &&& id[12] == '4'
    &&& (id[16] == '8' || id[16] == '9' || id[16] == 'a' || id[16] == 'b')
}

/// `uuid::Uuid::new_v4().simple().to_string()`: a fresh random version-4
/// UUID, written as 32 lower-case hexadecimal digits. Which random digits
/// come out is up to the random source.
#[verifier::external_body]
fn new_id() -> (id: String)
    ensures
        is_random_uuid_text(id@),
{
    uuid::Uuid::new_v4().simple().to_string()
}

/// `SystemTime::now()` of std, as whole milliseconds since the Unix epoch;
/// `None` when the clock reads earlier than the epoch. The reading itself
/// is the machine's.
#[verifier::external_body]
fn unix_millis() -> (r: Option<u128>)
{
    std::time::SystemTime::now().duration_since(std::time::UNIX_EPOCH).ok().map(|d| d.as_millis())
}

/// Milliseconds since the Unix epoch, or 0 when the clock reads earlier.
pub fn now_ms() -> (ms: u64)
{
    match unix_millis() {
        Some(m) => millis_to_u64(m),
        None => 0,
    }
}

/// `m as u64`: the low 64 bits of a millisecond count.
pub fn millis_to_u64(m: u128) -> (r: u64)
    ensures
        r == m % 0x1_0000_0000_0000_0000,
{
    let r = m as u64;
    assert(r == m % 0x1_0000_0000_0000_0000) by (bit_vector)
        requires
            r == m as u64,
    ;
    r
}

/// A new library item for an upload of `name` with the given `data:` URL,
/// with the bytes to store. It gets a fresh 32-digit hexadecimal id and the
/// current time; fails as [`decode_data_url`] does.
pub fn new_item(name: String, data_url: &str) -> (r: Result<(LibraryItem, Vec<u8>), String>)
    ensures
        r is Ok <==> is_base64(data_url_payload(data_url@)),
        r matches Ok((item, bytes)) ==> {
            &&& base64_text(bytes@) == data_url_payload(data_url@)
            &&& item.ext@ == ext_of_mime(data_url_mime(data_url@))
            &&& item.name@ == display_name_text(name@)
            &&& is_random_uuid_text(item.id@)
        },
        r matches Err(m) ==> m@ == decode_failure(data_url@),
{
    match decode_data_url(data_url) {
        Ok((bytes, ext)) => {
            let item = LibraryItem {
                id: new_id(),
                name: display_name(name),
                added: now_ms(),
                ext,
            };
            Ok((item, bytes))
        },
        Err(m) => Err(m),
    }
}

/// The file an item's image is stored in: `<id>.<ext>`.
pub fn item_file_name(item: &LibraryItem) -> (f: String)
    ensures
        f@ == item.id@ + "."@ + item.ext@,
{
    let mut v = chars_of(item.id.as_str());
    push_str(&mut v, ".");
    push_str(&mut v, item.ext.as_str());
    string_from_chars(&v)
}

/// Index of the first item of `items` at or after `from` whose id is `id`.
pub open spec fn item_index(items: Seq<LibraryItem>, id: Seq<char>, from: int) -> Option<int>
    decreases items.len() - from,
{
    if from < 0 || from >= items.len() {
        None
    } else if items[from].id@ == id {
        Some(from)
    } else {
        item_index(items, id, from + 1)
    }
}

proof fn lemma_item_index(items: Seq<LibraryItem>, id: Seq<char>, from: int)
    requires
        0 <= from,
    ensures
        item_index(items, id, from) matches Some(i) ==> from <= i < items.len() && items[i].id@
            == id,
        item_index(items, id, from) is None ==> forall|j: int|
            from <= j < items.len() ==> items[j].id@ != id,
    decreases items.len() - from,
{
    if from < items.len() && items[from].id@ != id {
        lemma_item_index(items, id, from + 1);
    }
}

/// The index after deleting the item `id` (its first entry), if listed.
pub open spec fn without_item(items: Seq<LibraryItem>, id: Seq<char>) -> Seq<LibraryItem> {
    match item_index(items, id, 0) {
        Some(i) => items.remove(i),
        None => items,
    }
}

/// Position of the first item with id `id`.
pub fn find_item(items: &Vec<LibraryItem>, id: &str) -> (r: Option<usize>)
    ensures
        r matches Some(i) ==> item_index(items@, id@, 0) == Some(i as int),
        r is None ==> item_index(items@, id@, 0) is None,
{
    let mut i: usize = 0;
    while i < items.len()
        invariant
            i <= items.len(),
            item_index(items@, id@, 0) == item_index(items@, id@, i as int),
        decreases items.len() - i,
    {
        if str_eq(items[i].id.as_str(), id) {
            return Some(i);
        }
        i = i + 1;
    }
    None
}

/// Lists a new upload first (the index is newest first).
pub fn add_item(items: &mut Vec<LibraryItem>, item: LibraryItem)
    ensures
        final(items)@ == old(items)@.insert(0, item),
{
    items.insert(0, item);
}

/// Removes the item `id` from the index and hands it back, so that its file
/// can be deleted; `None`, with the index unchanged, when it is not listed.
pub fn delete_item(items: &mut Vec<LibraryItem>, id: &str) -> (r: Option<LibraryItem>)
    ensures
        final(items)@ == without_item(old(items)@, id@),
        r is Some <==> item_index(old(items)@, id@, 0) is Some,
        r matches Some(it) ==> it == old(items)@[item_index(old(items)@, id@, 0)->0],
{
    proof {
        lemma_item_index(items@, id@, 0);
    }
    match find_item(items, id) {
        Some(i) => Some(items.remove(i)),
        None => None,
    }
}

/// The message for an image schedule whose image was deleted.
pub open spec fn missing_image_text(id: Seq<char>) -> Seq<char> {
    "image "@ + debug_quoted(id) + " is no longer in the library"@
}

/// The item an image schedule pushes, or the message that it was deleted.
pub fn item_for_schedule<'a>(items: &'a Vec<LibraryItem>, id: &str) -> (r: Result<
    &'a LibraryItem,
    String,
>)
    ensures
        r is Ok <==> item_index(items@, id@, 0) is Some,
        r matches Ok(it) ==> *it == items@[item_index(items@, id@, 0)->0],
        r matches Err(m) ==> m@ == missing_image_text(id@),
{
    proof {
        lemma_item_index(items@, id@, 0);
    }
    match find_item(items, id) {
        Some(i) => Ok(&items[i]),
        None => {
            let mut m = chars_of("image ");
            let q = debug_str(id);
            push_str(&mut m, q.as_str());
            push_str(&mut m, " is no longer in the library");
            Err(string_from_chars(&m))
        },
    }
}

/// The item whose image the library view shows, or `image not found in
/// library`.
pub fn item_for_view<'a>(items: &'a Vec<LibraryItem>, id: &str) -> (r: Result<
    &'a LibraryItem,
    String,
>)
    ensures
        r is Ok <==> item_index(items@, id@, 0) is Some,
        r matches Ok(it) ==> *it == items@[item_index(items@, id@, 0)->0],
        r matches Err(m) ==> m@ == "image not found in library"@,
{
    proof {
        lemma_item_index(items@, id@, 0);
    }
    match find_item(items, id) {
        Some(i) => Ok(&items[i]),
        None => Err("image not found in library".to_owned()),
    }
}

/// A stored image as a `data:` URL for the thumbnail and the preview.
pub fn image_data_url(item: &LibraryItem, bytes: &[u8]) -> (u: String)
    ensures
        u@ == data_uri_text(mime_of_ext(item.ext@), bytes@),
{
    data_uri(mime_for(item.ext.as_str()), bytes)
}

/// Adding an upload whose id is not yet listed and then deleting it by that
/// id gives the index back as it was; while listed, it is the newest item.
pub proof fn law_add_then_delete_restores(items: Seq<LibraryItem>, item: LibraryItem)
    requires
        forall|j: int| 0 <= j < items.len() ==> items[j].id@ != item.id@,
    ensures
        item_index(items.insert(0, item), item.id@, 0) == Some(0int),
        items.insert(0, item)[0] == item,
        without_item(items.insert(0, item), item.id@) == items,
{
    assert(items.insert(0, item)[0] == item);
    assert(items.insert(0, item).remove(0) =~= items);
}

/// The `data:` URL the library view shows decodes back to the stored bytes:
/// its payload is exactly their base64 text, which no other bytes share, so
/// a preview or push of that URL works on the stored image.
pub proof fn law_image_data_url_round_trips(ext: Seq<char>, bytes: Seq<u8>)
    ensures
        data_url_payload(data_uri_text(mime_of_ext(ext), bytes)) == base64_text(bytes),
        is_base64(data_url_payload(data_uri_text(mime_of_ext(ext), bytes))),
        forall|b: Seq<u8>|
            base64_text(b) == data_url_payload(data_uri_text(mime_of_ext(ext), bytes)) ==> b
                == bytes,
{
    let m = mime_of_ext(ext);
    let u = data_uri_text(m, bytes);
    let t = base64_text(bytes);
    let head = "data:"@ + m + ";base64,"@;
    reveal_strlit(";base64,");
    assert(u =~= head + t);
    let k = head.len() as int;
    assert(head[k - 1] == ',');
    assert(u[k - 1] == ',');
    lemma_base64_no_comma(bytes);
    assert forall|j: int| k <= j < u.len() implies u[j] != ',' by {
        assert(u[j] == t[j - k]);
    }
    lemma_after_last_char(u, ',', k);
    assert(u.skip(k) =~= t);
    assert forall|b: Seq<u8>| base64_text(b) == t implies b == bytes by {
        lemma_base64_injective(b, bytes);
    }
}

} // verus!
