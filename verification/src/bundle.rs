//! Bundles: several results packed into one zip archive, each under a name
//! of its own.

use vstd::prelude::*;
use vstd::string::StringSliceAdditionalSpecFns;
use vstd::utf8::encode_utf8;
use crate::error::{AudioError, ErrorView};
use crate::job::{Response, ResponseView};
use crate::text::{chars_of, digits, last_index, lemma_digits_shape, lemma_digits_value,
    lemma_last_index, lemma_last_index_is, push_char, push_digits, texts};

verus! {

/// A character as it stands in the name of an entry: a slash of either
/// kind gives way to an underscore, so that no name reads as a path.
pub open spec fn clean_char(c: char) -> char {
    if c == '\\' || c == '/' {
        '_'
    } else {
        c
    }
}

/// A file name made fit for an entry.
pub open spec fn clean_name(name: Seq<char>) -> Seq<char> {
    Seq::new(name.len(), |i: int| clean_char(name[i]))
}

/// The clean names of the files of a batch.
pub open spec fn clean_names(names: Seq<Seq<char>>) -> Seq<Seq<char>> {
    Seq::new(names.len(), |i: int| clean_name(names[i]))
}

/// How many of the first `n` names come to a given clean name.
pub open spec fn count_same(names: Seq<Seq<char>>, clean: Seq<char>, n: nat) -> nat
    decreases n,
{
    if n == 0 {
        0
    } else {
        count_same(names, clean, (n - 1) as nat) + if clean_name(names[n - 1]) == clean {
            1nat
        } else {
            0nat
        }
    }
}

/// The mark that tells a repeated name from the ones before it.
pub open spec fn mark(n: nat) -> Seq<char> {
    seq!['_', '('] + digits(n) + seq![')']
}

/// A name with a mark: before the last dot of the name, or at its end
/// where it has no dot.
pub open spec fn marked(name: Seq<char>, n: nat) -> Seq<char> {
    let dot = last_index(name, '.');
    if dot >= 0 {
        name.subrange(0, dot) + mark(n) + name.subrange(dot, name.len() as int)
    } else {
        name + mark(n)
    }
}

/// Whether a text is among the texts of a list.
pub open spec fn occurs(pool: Seq<Seq<char>>, s: Seq<char>) -> bool {
    exists|j: int| 0 <= j < pool.len() && #[trigger] pool[j] == s
}

/// The first number from `n` on with which the marked name is not among
/// the texts of a list, looked for among `budget` numbers; where all of
/// them are taken, the number after them.
pub open spec fn free_from(pool: Seq<Seq<char>>, name: Seq<char>, n: nat, budget: nat) -> nat
    decreases budget,
{
    if budget == 0 || !occurs(pool, marked(name, n)) {
        n
    } else {
        free_from(pool, name, n + 1, (budget - 1) as nat)
    }
}

/// The number that marks the `k`-th repetition of a name in a batch: the
/// first number after that of the repetition before it with which the
/// marked name is not the clean name of any file of the batch. Where no
/// file of the batch reads as a marked name, the `k`-th repetition bears
/// the number `k`.
pub open spec fn mark_number(pool: Seq<Seq<char>>, name: Seq<char>, k: nat) -> nat
    decreases k,
{
    if k == 0 {
        0
    } else {
        free_from(pool, name, mark_number(pool, name, (k - 1) as nat) + 1, pool.len())
    }
}

/// The name of the entry for the file at a place of a batch: its clean
/// name where no earlier file has the same, else that name with the mark
/// of its repetition.
pub open spec fn entry_name(names: Seq<Seq<char>>, i: int) -> Seq<char> {
    let clean = clean_name(names[i]);
    let earlier = count_same(names, clean, i as nat);
    if earlier == 0 {
        clean
    } else {
        marked(clean, mark_number(clean_names(names), clean, earlier))
    }
}

/// The names of the entries of a batch.
pub open spec fn entry_names(names: Seq<Seq<char>>) -> Seq<Seq<char>> {
    Seq::new(names.len(), |i: int| entry_name(names, i))
}

/// The views of a list of named files.
pub open spec fn file_views(files: Seq<(String, Vec<u8>)>) -> Seq<(Seq<char>, Seq<u8>)> {
    Seq::new(files.len(), |i: int| (files[i].0@, files[i].1@))
}

/// The names of a list of named files.
pub open spec fn names_of(files: Seq<(Seq<char>, Seq<u8>)>) -> Seq<Seq<char>> {
    Seq::new(files.len(), |i: int| files[i].0)
}

/// How the bytes of an entry are kept in an archive.
#[derive(Debug, Clone, Copy, PartialEq, Eq, Structural)]
pub enum Packing {
    /// As they are, without compression.
    Stored,
}

/// The entries of the bundle of a batch: each file under its entry name,
/// stored as it is, in the order of the batch.
pub open spec fn bundle_entries(files: Seq<(Seq<char>, Seq<u8>)>) -> Seq<
    (Seq<char>, Seq<u8>, Packing),
> {
    Seq::new(
        files.len(),
        |i: int| (entry_name(names_of(files), i), files[i].1, Packing::Stored),
    )
}

/// Whether no text occurs twice in a list.
pub open spec fn all_distinct(names: Seq<Seq<char>>) -> bool {
    forall|i: int, j: int| 0 <= i < j < names.len() ==> names[i] != names[j]
}

/// The longest name that an entry can have, in bytes.
pub const MAX_ENTRY_NAME: usize = 65535;

/// The most bytes that an entry can hold.
pub const MAX_ENTRY_SIZE: usize = 0xFFFF_FFFF;

/// Whether a batch can be bundled: the name of every entry fits in 65535
/// bytes, and every file in 4 GiB less one byte.
pub open spec fn zip_fits(files: Seq<(Seq<char>, Seq<u8>)>) -> bool {
    forall|i: int|
        0 <= i < files.len() ==> encode_utf8(#[trigger] entry_name(names_of(files), i)).len()
            <= MAX_ENTRY_NAME && files[i].1.len() <= MAX_ENTRY_SIZE
}

/// Why a batch cannot be bundled, going by its files from place `i` on:
/// the first file that does not fit decides, a name that is too long
/// before a content that is too large.
pub open spec fn refusal_from(files: Seq<(Seq<char>, Seq<u8>)>, i: nat) -> Option<Seq<char>>
    decreases files.len() - i,
{
    if i >= files.len() {
        None
    } else if encode_utf8(entry_name(names_of(files), i as int)).len() > MAX_ENTRY_NAME {
        Some("file name too long"@)
    } else if files[i as int].1.len() > MAX_ENTRY_SIZE {
        Some("file too large"@)
    } else {
        refusal_from(files, i + 1)
    }
}

/// Why a batch cannot be bundled, or `None` where it can.
pub open spec fn refusal(files: Seq<(Seq<char>, Seq<u8>)>) -> Option<Seq<char>> {
    refusal_from(files, 0)
}

/// The name under which a bundle is handed back.
pub open spec fn bundle_file_name() -> Seq<char> {
    "sonic-tools.zip"@
}

/// An archive under construction in memory: the zip crate's `ZipWriter`
/// over a cursor on a byte buffer. Nothing inside it is visible to the
/// proofs; what it holds goes by the name `archive_entries`.
#[verifier::external_body]
pub struct Archive {
    inner: ::zip::ZipWriter<std::io::Cursor<Vec<u8>>>,
}

/// The error type of the zip crate, carried through unread.
#[verifier::external_type_specification]
#[verifier::external_body]
pub struct ExZipError(::zip::result::ZipError);

/// The error type of the standard library's input and output, carried
/// through unread.
#[verifier::external_type_specification]
#[verifier::external_body]
pub struct ExIoError(std::io::Error);

/// What an archive under construction holds: the name, the content and
/// the packing of each entry, in the order in which the entries were
/// started.
pub uninterp spec fn archive_entries(w: Archive) -> Seq<(Seq<char>, Seq<u8>, Packing)>;

/// Whether the entry that was started last is open for writing.
pub uninterp spec fn archive_open(w: Archive) -> bool;

/// The bytes of the finished archive that holds these entries.
pub uninterp spec fn zip_image(entries: Seq<(Seq<char>, Seq<u8>, Packing)>) -> Seq<u8>;

/// The entries of an archive after bytes were written to the entry that
/// was started last.
pub open spec fn extended(entries: Seq<(Seq<char>, Seq<u8>, Packing)>, data: Seq<u8>) -> Seq<
    (Seq<char>, Seq<u8>, Packing),
> {
    entries.drop_last().push((entries.last().0, entries.last().1 + data, entries.last().2))
}

/// Whether an archive has room for bytes: there are none to write, or an
/// entry is open and stays within what an entry can hold.
pub open spec fn has_room(w: Archive, data: Seq<u8>) -> bool {
    data.len() == 0 || (archive_open(w) && archive_entries(w).len() > 0 && archive_entries(
        w,
    ).last().1.len() + data.len() <= MAX_ENTRY_SIZE)
}

/// Calls `ZipWriter::new` of the zip crate on an empty buffer in memory.
/// The archive so made holds no entry, and none is open.
#[verifier::external_body]
fn new_archive() -> (w: Archive)
    ensures
        archive_entries(w) == Seq::<(Seq<char>, Seq<u8>, Packing)>::empty(),
        !archive_open(w),
{
    Archive { inner: ::zip::ZipWriter::new(std::io::Cursor::new(Vec::new())) }
}

/// Calls `ZipWriter::start_file` of the zip crate, with the crate's default
/// options, the packing handed in and the crate's default date in place of
/// the time of day. On a writer in memory the call succeeds exactly where
/// no entry of the archive has the name: the crate refuses a name that the
/// archive already holds, and nothing else. Where it succeeds, the archive
/// holds one more entry, with the given name and packing and nothing in it
/// yet, and that entry is open. A name whose length does not fit in 16
/// bits makes the crate panic, and is left out.
#[verifier::external_body]
fn start_entry(w: &mut Archive, name: &str, packing: Packing) -> (r: Result<
    (),
    ::zip::result::ZipError,
>)
    requires
        name.spec_bytes().len() <= MAX_ENTRY_NAME,
    ensures
        r is Ok <==> forall|k: int|
            0 <= k < archive_entries(*old(w)).len() ==> (#[trigger] archive_entries(*old(w))[k]).0
                != name@,
        r is Ok ==> archive_entries(*final(w)) == archive_entries(*old(w)).push(
            (name@, Seq::empty(), packing),
        ),
        r is Ok ==> archive_open(*final(w)),
{
    let method = match packing {
        Packing::Stored => ::zip::CompressionMethod::Stored,
    };
    let options: ::zip::write::FileOptions<()> = ::zip::write::FileOptions::default()
        .compression_method(method)
        .last_modified_time(::zip::DateTime::default());
    w.inner.start_file(name, options)
}

/// Calls `write_all` on the zip crate's `ZipWriter`. Where there is room
/// for the bytes the call succeeds on a writer in memory: the bytes are at
/// the end of the entry that was started last, and nothing else has
/// changed. Bytes for which there is no room are refused by the crate and
/// leave the buffer in disorder; they are left out.
#[verifier::external_body]
fn write_entry(w: &mut Archive, data: &[u8]) -> (r: Result<(), std::io::Error>)
    requires
        has_room(*old(w), data@),
    ensures
        r is Ok,
        archive_entries(*old(w)).len() > 0 ==> archive_entries(*final(w)) == extended(
            archive_entries(*old(w)),
            data@,
        ),
        archive_entries(*old(w)).len() == 0 ==> archive_entries(*final(w)) == archive_entries(
            *old(w),
        ),
        archive_open(*final(w)) == archive_open(*old(w)),
{
    std::io::Write::write_all(&mut w.inner, data)
}

/// Calls `ZipWriter::finish` of the zip crate and takes the buffer out of
/// what it returns. On a writer in memory the call succeeds, and the bytes
/// are the archive of the entries written. Every entry bears the same
/// fixed date, so the bytes follow from the entries alone.
#[verifier::external_body]
fn finish_archive(w: Archive) -> (r: Result<Vec<u8>, ::zip::result::ZipError>)
    ensures
        r is Ok,
        r.unwrap()@ == zip_image(archive_entries(w)),
{
    match w.inner.finish() {
        Ok(cursor) => Ok(cursor.into_inner()),
        Err(e) => Err(e),
    }
}

/// Renders an error of the zip crate as text, by its `Display`.
#[verifier::external_body]
fn zip_error_text(e: &::zip::result::ZipError) -> (r: String) {
    e.to_string()
}

/// Renders an input or output error as text, by its `Display`.
#[verifier::external_body]
fn io_error_text(e: &std::io::Error) -> (r: String) {
    e.to_string()
}

/// A file name made fit for an entry, as characters.
fn cleaned(name: &str) -> (r: Vec<char>)
    ensures
        r@ == clean_name(name@),
{
    let mut r: Vec<char> = Vec::new();
    for c in it: name.chars()
        invariant
            it.seq() == name@,
            r@ == clean_name(name@).subrange(0, it.index()),
    {
        if c == '\\' || c == '/' {
            r.push('_');
        } else {
            r.push(c);
        }
    }
    r
}

fn same_chars(a: &Vec<char>, b: &Vec<char>) -> (r: bool)
    ensures
        r == (a@ == b@),
{
    if a.len() != b.len() {
        return false;
    }
    let mut i: usize = 0;
    while i < a.len()
        invariant
            a.len() == b.len(),
            i <= a.len(),
            forall|j: int| 0 <= j < i ==> a@[j] == b@[j],
        decreases a.len() - i,
    {
        if a[i] != b[i] {
            return false;
        }
        i = i + 1;
    }
    assert(a@ =~= b@);
    true
}

fn push_chars(s: &mut String, v: &Vec<char>, from: usize, to: usize)
    requires
        from <= to <= v.len(),
    ensures
        final(s)@ == old(s)@ + v@.subrange(from as int, to as int),
{
    let mut i: usize = from;
    while i < to
        invariant
            from <= i <= to <= v.len(),
            s@ == old(s)@ + v@.subrange(from as int, i as int),
        decreases to - i,
    {
        push_char(s, v[i]);
        i = i + 1;
    }
}

/// A clean name with a mark.
fn marked_name(clean: &Vec<char>, n: u128) -> (r: String)
    ensures
        r@ == marked(clean@, n as nat),
{
    let mut dot: usize = clean.len();
    assert(clean@.subrange(0, dot as int) =~= clean@);
    while dot > 0 && clean[dot - 1] != '.'
        invariant
            dot <= clean.len(),
            last_index(clean@, '.') == last_index(clean@.subrange(0, dot as int), '.'),
        decreases dot,
    {
        let ghost here = clean@.subrange(0, dot as int);
        assert(here.drop_last() =~= clean@.subrange(0, dot - 1));
        dot = dot - 1;
    }
    let split: usize = if dot > 0 {
        (dot - 1) as usize
    } else {
        clean.len()
    };
    let mut r = String::new();
    push_chars(&mut r, clean, 0, split);
    push_char(&mut r, '_');
    push_char(&mut r, '(');
    push_digits(&mut r, n);
    push_char(&mut r, ')');
    push_chars(&mut r, clean, split, clean.len());
    r
}

/// The views of a list of texts held as characters.
pub open spec fn char_views(pool: Seq<Vec<char>>) -> Seq<Seq<char>> {
    Seq::new(pool.len(), |i: int| pool[i]@)
}

/// Whether a text is among the texts of a list.
fn is_among(pool: &Vec<Vec<char>>, s: &Vec<char>) -> (r: bool)
    ensures
        r == occurs(char_views(pool@), s@),
{
    let mut j: usize = 0;
    while j < pool.len()
        invariant
            j <= pool.len(),
            forall|k: int| 0 <= k < j ==> #[trigger] char_views(pool@)[k] != s@,
        decreases pool.len() - j,
    {
        if same_chars(&pool[j], s) {
            assert(char_views(pool@)[j as int] == s@);
            return true;
        }
        j = j + 1;
    }
    false
}

/// The first number from `from` on with which the marked name is not
/// among the texts of a list.
fn free_number(pool: &Vec<Vec<char>>, clean: &Vec<char>, from: u128) -> (n: u128)
    requires
        from + pool.len() < u128::MAX,
    ensures
        n == free_from(char_views(pool@), clean@, from as nat, pool.len() as nat),
        from <= n <= from + pool.len(),
{
    let mut n: u128 = from;
    let mut left: usize = pool.len();
    while left > 0
        invariant
            left <= pool.len(),
            from + pool.len() < u128::MAX,
            n + left == from + pool.len(),
            free_from(char_views(pool@), clean@, from as nat, pool.len() as nat) == free_from(
                char_views(pool@),
                clean@,
                n as nat,
                left as nat,
            ),
        decreases left,
    {
        let candidate = marked_name(clean, n);
        let text = chars_of(candidate.as_str());
        if !is_among(pool, &text) {
            return n;
        }
        n = n + 1;
        left = left - 1;
    }
    n
}

/// The names of the entries of a batch, from the names of its files.
pub fn bundle_names(names: &Vec<String>) -> (r: Vec<String>)
    ensures
        texts(r@) == entry_names(texts(names@)),
{
    let ghost ns = texts(names@);
    let ghost pool = clean_names(ns);
    let total = names.len();
    let mut clean: Vec<Vec<char>> = Vec::new();
    let mut i: usize = 0;
    while i < total
        invariant
            i <= total == names.len(),
            ns == texts(names@),
            clean.len() == i,
            forall|k: int| 0 <= k < i ==> (#[trigger] clean@[k])@ == clean_name(ns[k]),
        decreases total - i,
    {
        clean.push(cleaned(names[i].as_str()));
        i = i + 1;
    }
    let mut numbers: Vec<u128> = Vec::new();
    let mut r: Vec<String> = Vec::new();
    let mut i: usize = 0;
    while i < total
        invariant
            i <= total == names.len(),
            ns == texts(names@),
            pool == clean_names(ns),
            char_views(clean@) == pool,
            clean.len() == total,
            numbers.len() == i,
            r.len() == i,
            forall|k: int|
                0 <= k < i ==> #[trigger] numbers@[k] == mark_number(
                    pool,
                    pool[k],
                    count_same(ns, pool[k], k as nat),
                ),
            forall|k: int| 0 <= k < i ==> #[trigger] numbers@[k] <= k * (total + 1),
            forall|k: int| 0 <= k < i ==> (#[trigger] r@[k])@ == entry_name(ns, k),
        decreases total - i,
    {
        let ghost c = pool[i as int];
        let mut earlier: usize = 0;
        let mut before: u128 = 0;
        let mut j: usize = 0;
        while j < i
            invariant
                j <= i < total == clean.len(),
                numbers.len() == i,
                earlier <= j,
                char_views(clean@) == pool,
                pool == clean_names(ns),
                ns.len() == total,
                c == pool[i as int],
                c == clean@[i as int]@,
                earlier == count_same(ns, c, j as nat),
                before == mark_number(pool, c, earlier as nat),
                before <= j * (total + 1),
                forall|k: int|
                    0 <= k < i ==> #[trigger] numbers@[k] == mark_number(
                        pool,
                        pool[k],
                        count_same(ns, pool[k], k as nat),
                    ),
                forall|k: int| 0 <= k < i ==> #[trigger] numbers@[k] <= k * (total + 1),
            decreases i - j,
        {
            assert(clean@[j as int]@ == char_views(clean@)[j as int]);
            proof {
                lemma_products(j as int, total as int);
            }
            if same_chars(&clean[j], &clean[i]) {
                earlier = earlier + 1;
                before = free_number(&clean, &clean[i], numbers[j] + 1);
            }
            j = j + 1;
        }
        let name = if earlier == 0 {
            let mut s = String::new();
            push_chars(&mut s, &clean[i], 0, clean[i].len());
            s
        } else {
            marked_name(&clean[i], before)
        };
        numbers.push(before);
        r.push(name);
        i = i + 1;
    }
    r
}

/// Products of places with the size of a batch grow with the places and
/// stay within 128 bits.
proof fn lemma_products(j: int, total: int)
    requires
        0 <= j,
        j + 1 < total <= usize::MAX,
    ensures
        (j + 1) * (total + 1) == j * (total + 1) + total + 1,
        (j + 1) * (total + 1) < u128::MAX,
        0 <= j * (total + 1),
{
    assert((j + 1) * (total + 1) == j * (total + 1) + total + 1) by (nonlinear_arith);
    assert(0 <= j * (total + 1) && (j + 1) * (total + 1) <= 0xFFFF_FFFF_FFFF_FFFE
        * 0x1_0000_0000_0000_0000) by (nonlinear_arith)
        requires
            0 <= j,
            j + 1 < total <= 0xFFFF_FFFF_FFFF_FFFF,
    ;
}

fn names_in(files: &Vec<(String, Vec<u8>)>) -> (r: Vec<String>)
    ensures
        texts(r@) == names_of(file_views(files@)),
{
    let mut r: Vec<String> = Vec::new();
    let mut i: usize = 0;
    while i < files.len()
        invariant
            i <= files.len(),
            r.len() == i,
            forall|k: int| 0 <= k < i ==> (#[trigger] r@[k])@ == files@[k].0@,
        decreases files.len() - i,
    {
        r.push(files[i].0.clone());
        i = i + 1;
    }
    r
}

/// Packs named files into one zip archive, each stored as it is, under the
/// entry names of the batch, which are all different. An archive comes
/// back exactly where the batch can be bundled: it holds one entry for
/// each file, in the order of the batch. Where the batch cannot be
/// bundled, the error says why.
pub fn make_zip(files: Vec<(String, Vec<u8>)>) -> (r: Result<Vec<u8>, AudioError>)
    ensures
        match refusal(file_views(files@)) {
            None => r is Ok && r.unwrap()@ == zip_image(bundle_entries(file_views(files@))),
            Some(reason) => r is Err && r.unwrap_err()@ == ErrorView::Archive(reason),
        },
        r is Ok <==> zip_fits(file_views(files@)),
        all_distinct(entry_names(names_of(file_views(files@)))),
{
    let ghost fv = file_views(files@);
    let ghost want = bundle_entries(fv);
    let ghost en = entry_names(names_of(fv));
    proof {
        lemma_entry_names_are_distinct(names_of(fv));
        lemma_refusal(fv, 0);
    }
    let names = names_in(&files);
    let entries = bundle_names(&names);
    let mut w = new_archive();
    let mut i: usize = 0;
    assert(texts(entries@).len() == entries.len());
    while i < files.len()
        invariant
            i <= files.len(),
            fv == file_views(files@),
            want == bundle_entries(fv),
            en == entry_names(names_of(fv)),
            all_distinct(en),
            entries.len() == files.len(),
            texts(entries@) == en,
            archive_entries(w) == want.subrange(0, i as int),
            refusal(fv) == refusal_from(fv, i as nat),
        decreases files.len() - i,
    {
        let ghost before = archive_entries(w);
        assert(en[i as int] == entry_name(names_of(fv), i as int));
        if entries[i].as_str().as_bytes().len() > MAX_ENTRY_NAME {
            return Err(AudioError::Archive("file name too long".to_owned()));
        }
        if files[i].1.len() > MAX_ENTRY_SIZE {
            return Err(AudioError::Archive("file too large".to_owned()));
        }
        assert forall|k: int| 0 <= k < before.len() implies (#[trigger] before[k]).0
            != entries@[i as int]@ by {
            assert(want[k].0 == en[k]);
        }
        // the names differ and the files fit, so the archiver takes them; were
        // it to refuse all the same, its words are handed on
        match start_entry(&mut w, entries[i].as_str(), Packing::Stored) {
            Ok(()) => {},
            Err(e) => {
                return Err(AudioError::Archive(zip_error_text(&e)));
            },
        }
        match write_entry(&mut w, files[i].1.as_slice()) {
            Ok(()) => {},
            Err(e) => {
                return Err(AudioError::Archive(io_error_text(&e)));
            },
        }
        i = i + 1;
    }
    assert(want.subrange(0, i as int) =~= want);
    match finish_archive(w) {
        Ok(bytes) => Ok(bytes),
        Err(e) => Err(AudioError::Archive(zip_error_text(&e))),
    }
}

/// The response that hands back a bundle.
pub fn bundle_response(zip_bytes: Vec<u8>) -> (r: Response)
    ensures
        r@ == (ResponseView {
            file_data: zip_bytes@,
            format: "zip"@,
            filename: bundle_file_name(),
        }),
{
    Response { file_data: zip_bytes, format: "zip".to_owned(), filename: "sonic-tools.zip".to_owned() }
}

proof fn lemma_count_same_grows(names: Seq<Seq<char>>, clean: Seq<char>, m: nat, n: nat)
    requires
        m <= n,
    ensures
        count_same(names, clean, m) <= count_same(names, clean, n),
    decreases n,
{
    if m < n {
        lemma_count_same_grows(names, clean, m, (n - 1) as nat);
    }
}

proof fn lemma_mark_shape(n: nat)
    ensures
        mark(n).len() == digits(n).len() + 3,
        mark(n).len() >= 4,
        mark(n)[0] == '_',
        mark(n)[1] == '(',
        mark(n).last() == ')',
        forall|i: int| 0 <= i < digits(n).len() ==> #[trigger] mark(n)[i + 2] == digits(n)[i],
        forall|i: int| 0 <= i < mark(n).len() ==> #[trigger] mark(n)[i] != '.',
{
    lemma_digits_shape(n);
}

/// Two texts that end in marks are the same only where the marks are the
/// same and what stands before them is the same.
proof fn lemma_mark_splits(p1: Seq<char>, n1: nat, p2: Seq<char>, n2: nat)
    requires
        p1 + mark(n1) == p2 + mark(n2),
    ensures
        p1 == p2,
        n1 == n2,
{
    let t = p1 + mark(n1);
    let l1 = digits(n1).len() as int;
    let l2 = digits(n2).len() as int;
    lemma_mark_shape(n1);
    lemma_mark_shape(n2);
    lemma_digits_shape(n1);
    lemma_digits_shape(n2);
    let len = t.len() as int;
    // the bracket that opens one mark cannot stand among the digits of the other
    if l1 < l2 {
        let at = len - 2 - l1;
        assert(t[at] == mark(n2)[at - p2.len()]);
        assert(false);
    }
    if l2 < l1 {
        let at = len - 2 - l2;
        assert(t[at] == mark(n1)[at - p1.len()]);
        assert(false);
    }
    assert(p1 =~= p2) by {
        assert forall|i: int| 0 <= i < p1.len() implies p1[i] == p2[i] by {
            assert((p2 + mark(n2))[i] == p2[i]);
        }
    }
    assert(digits(n1) =~= digits(n2)) by {
        assert forall|i: int| 0 <= i < l1 implies digits(n1)[i] == digits(n2)[i] by {
            assert((p2 + mark(n2))[p2.len() + i + 2] == mark(n2)[i + 2]);
        }
    }
    lemma_digits_value(n1);
    lemma_digits_value(n2);
}

/// Where the last dot of a marked name stands, and what stands on either
/// side of it.
proof fn lemma_marked_shape(name: Seq<char>, n: nat)
    ensures
        ({
            let dot = last_index(name, '.');
            let s = marked(name, n);
            if dot >= 0 {
                &&& last_index(s, '.') == dot + mark(n).len()
                &&& s.subrange(0, dot + mark(n).len()) == name.subrange(0, dot) + mark(n)
                &&& s.subrange(dot + mark(n).len(), s.len() as int) == name.subrange(
                    dot,
                    name.len() as int,
                )
            } else {
                &&& last_index(s, '.') == -1
                &&& s == name + mark(n)
            }
        }),
{
    let dot = last_index(name, '.');
    let s = marked(name, n);
    let m = mark(n).len() as int;
    lemma_last_index(name, '.');
    lemma_mark_shape(n);
    if dot >= 0 {
        lemma_last_index_is(s, '.', dot + m);
    } else {
        lemma_last_index_is(s, '.', -1);
    }
}

/// A marked name tells its name and its number: two marked names are the
/// same only where both are.
proof fn lemma_marked_tells_apart(c1: Seq<char>, n1: nat, c2: Seq<char>, n2: nat)
    requires
        marked(c1, n1) == marked(c2, n2),
    ensures
        c1 == c2,
        n1 == n2,
{
    let d1 = last_index(c1, '.');
    let d2 = last_index(c2, '.');
    lemma_marked_shape(c1, n1);
    lemma_marked_shape(c2, n2);
    lemma_last_index(c1, '.');
    lemma_last_index(c2, '.');
    if d1 >= 0 {
        lemma_mark_splits(c1.subrange(0, d1), n1, c2.subrange(0, d2), n2);
        assert(c2 =~= c2.subrange(0, d2) + c2.subrange(d2, c2.len() as int));
    } else {
        lemma_mark_splits(c1, n1, c2, n2);
    }
}

/// Where every number of a run marks a name to a text of a list, the list
/// is at least as long as the run: no two numbers mark a name alike.
proof fn lemma_window_fits(pool: Seq<Seq<char>>, name: Seq<char>, n: nat, t: nat)
    requires
        forall|m: nat| n <= m < n + t ==> occurs(pool, #[trigger] marked(name, m)),
    ensures
        t <= pool.len(),
    decreases t,
{
    if t > 0 {
        let last = (n + t - 1) as nat;
        let j = choose|j: int| 0 <= j < pool.len() && #[trigger] pool[j] == marked(name, last);
        let rest = pool.remove(j);
        assert forall|m: nat| n <= m < n + (t - 1) implies occurs(
            rest,
            #[trigger] marked(name, m),
        ) by {
            let j2 = choose|j2: int| 0 <= j2 < pool.len() && #[trigger] pool[j2] == marked(name, m);
            if j2 == j {
                lemma_marked_tells_apart(name, m, name, last);
            }
            let j3 = if j2 < j {
                j2
            } else {
                j2 - 1
            };
            assert(rest[j3] == pool[j2]);
        }
        lemma_window_fits(rest, name, n, (t - 1) as nat);
    }
}

/// What a search for a free number comes to: every number before it is
/// taken, and it is free unless the search ran out.
proof fn lemma_free_from(pool: Seq<Seq<char>>, name: Seq<char>, n: nat, budget: nat)
    ensures
        n <= free_from(pool, name, n, budget) <= n + budget,
        forall|m: nat|
            n <= m < free_from(pool, name, n, budget) ==> occurs(pool, #[trigger] marked(name, m)),
        free_from(pool, name, n, budget) < n + budget ==> !occurs(
            pool,
            marked(name, free_from(pool, name, n, budget)),
        ),
    decreases budget,
{
    if budget > 0 && occurs(pool, marked(name, n)) {
        lemma_free_from(pool, name, n + 1, (budget - 1) as nat);
    }
}

/// The number of a repetition is after that of the repetition before it,
/// and the name it marks is not among the clean names of the batch.
proof fn lemma_mark_number(pool: Seq<Seq<char>>, name: Seq<char>, k: nat)
    requires
        k > 0,
    ensures
        mark_number(pool, name, k) > mark_number(pool, name, (k - 1) as nat),
        !occurs(pool, marked(name, mark_number(pool, name, k))),
{
    let from = mark_number(pool, name, (k - 1) as nat) + 1;
    let found = free_from(pool, name, from, pool.len());
    lemma_free_from(pool, name, from, pool.len());
    if occurs(pool, marked(name, found)) {
        assert forall|m: nat| from <= m < from + (pool.len() + 1) implies occurs(
            pool,
            #[trigger] marked(name, m),
        ) by {}
        lemma_window_fits(pool, name, from, pool.len() + 1);
    }
}

/// Later repetitions bear higher numbers.
proof fn lemma_mark_numbers_grow(pool: Seq<Seq<char>>, name: Seq<char>, a: nat, b: nat)
    requires
        a < b,
    ensures
        mark_number(pool, name, a) < mark_number(pool, name, b),
    decreases b,
{
    lemma_mark_number(pool, name, b);
    if a + 1 < b {
        lemma_mark_numbers_grow(pool, name, a, (b - 1) as nat);
    }
}

/// The names of the entries of a batch are all different, whatever the
/// files are called: the first file of a name keeps it, and every
/// repetition is marked as no other entry is.
pub proof fn lemma_entry_names_are_distinct(names: Seq<Seq<char>>)
    ensures
        all_distinct(entry_names(names)),
{
    let out = entry_names(names);
    let pool = clean_names(names);
    assert forall|i: int, j: int| 0 <= i < j < out.len() implies out[i] != out[j] by {
        let ci = clean_name(names[i]);
        let cj = clean_name(names[j]);
        let ki = count_same(names, ci, i as nat);
        let kj = count_same(names, cj, j as nat);
        assert(pool[i] == ci && pool[j] == cj);
        if ci == cj {
            lemma_count_same_grows(names, ci, (i + 1) as nat, j as nat);
        }
        if ki > 0 {
            lemma_mark_number(pool, ci, ki);
        }
        if kj > 0 {
            lemma_mark_number(pool, cj, kj);
        }
        if out[i] == out[j] && ki > 0 && kj > 0 {
            lemma_marked_tells_apart(
                ci,
                mark_number(pool, ci, ki),
                cj,
                mark_number(pool, cj, kj),
            );
            lemma_mark_numbers_grow(pool, ci, ki, kj);
        }
    }
}

/// Where no file of a batch reads as a marked name, the repetitions of a
/// name are numbered one, two, three and so on.
pub proof fn lemma_plain_batch_counts_up(names: Seq<Seq<char>>, name: Seq<char>, k: nat)
    requires
        forall|n: nat| !occurs(clean_names(names), #[trigger] marked(name, n)),
    ensures
        mark_number(clean_names(names), name, k) == k,
    decreases k,
{
    if k > 0 {
        lemma_plain_batch_counts_up(names, name, (k - 1) as nat);
    }
}

/// A batch can be bundled from a place on exactly where nothing from
/// that place on is refused.
pub proof fn lemma_refusal(files: Seq<(Seq<char>, Seq<u8>)>, i: nat)
    ensures
        refusal_from(files, i) is None <==> forall|a: int|
            i <= a < files.len() ==> encode_utf8(#[trigger] entry_name(names_of(files), a)).len()
                <= MAX_ENTRY_NAME && files[a].1.len() <= MAX_ENTRY_SIZE,
    decreases files.len() - i,
{
    if i < files.len() {
        lemma_refusal(files, i + 1);
    }
}

/// The bundle of a batch has one entry for each file, stored as it is.
pub proof fn lemma_bundle_has_every_file(files: Seq<(Seq<char>, Seq<u8>)>)
    ensures
        bundle_entries(files).len() == files.len(),
        forall|i: int|
            0 <= i < files.len() ==> (#[trigger] bundle_entries(files)[i]).1 == files[i].1
                && bundle_entries(files)[i].2 == Packing::Stored,
{
}

} // verus!
