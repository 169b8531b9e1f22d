use vstd::prelude::*;

verus! {

/// The byte that separates compiler diagnostics from program output.
pub const SEPARATOR: u8 = 0xFF;

/// `i` is the position of the first separator in `raw`.
pub open spec fn is_first_separator(raw: Seq<u8>, i: int) -> bool {
    &&& 0 <= i < raw.len()
    &&& raw[i] == SEPARATOR
    &&& forall|j: int| 0 <= j < i ==> raw[j] != SEPARATOR
}

/// A combined output stream split on its first separator: the diagnostics,
/// and the program output if a separator occurred.
pub open spec fn split_spec(raw: Seq<u8>) -> (Seq<u8>, Option<Seq<u8>>) {
    if exists|i: int| is_first_separator(raw, i) {
        let i = choose|i: int| is_first_separator(raw, i);
        (raw.take(i), Some(raw.skip(i + 1)))
    } else {
        (raw, None)
    }
}

/// The combined stream a sandboxed tool writes: diagnostics, then, when the
/// program ran, the separator and the program's output.
pub open spec fn join_spec(diagnostics: Seq<u8>, program: Option<Seq<u8>>) -> Seq<u8> {
    match program {
        Some(p) => diagnostics + seq![SEPARATOR] + p,
        None => diagnostics,
    }
}

/// Permissive UTF-8 decoding: invalid sequences become replacement characters.
pub uninterp spec fn lossy_of(b: Seq<u8>) -> Seq<char>;

/// Every byte is below 128, so the bytes are ASCII and thus valid UTF-8.
pub open spec fn is_ascii_bytes(b: Seq<u8>) -> bool {
    forall|i: int| 0 <= i < b.len() ==> b[i] < 128
}

/// ASCII bytes read as the characters of the same code points.
pub open spec fn ascii_text(b: Seq<u8>) -> Seq<char> {
    b.map_values(|x: u8| x as char)
}

/// The text that bytes decode to: ASCII is kept as it is, anything else is
/// decoded permissively.
pub open spec fn text_of(b: Seq<u8>) -> Seq<char> {
    if is_ascii_bytes(b) {
        ascii_text(b)
    } else {
        lossy_of(b)
    }
}

/// Relies on `String::from_utf8_lossy`, which decodes bytes as UTF-8 and never
/// fails; its result depends on the bytes alone, and valid UTF-8 (ASCII in
/// particular, and no bytes at all) comes back as the same text.
#[verifier::external_body]
fn utf8_lossy(b: &[u8]) -> (r: String)
    ensures
        r@ == lossy_of(b@),
        is_ascii_bytes(b@) ==> r@ == ascii_text(b@),
{
    String::from_utf8_lossy(b).into_owned()
}

/// The two text parts of a combined stream.
pub open spec fn decode_spec(raw: Seq<u8>) -> (Seq<char>, Option<Seq<char>>) {
    let (d, p) = split_spec(raw);
    (
        text_of(d),
        match p {
            Some(p) => Some(text_of(p)),
            None => None,
        },
    )
}

proof fn lemma_first_separator_unique(raw: Seq<u8>, i: int, k: int)
    requires
        is_first_separator(raw, i),
        is_first_separator(raw, k),
    ensures
        i == k,
{
}

/// Position of the first separator in `raw`, or its length if there is none.
pub fn separator_index(raw: &[u8]) -> (r: usize)
    ensures
        r <= raw@.len(),
        r < raw@.len() ==> is_first_separator(raw@, r as int),
        r == raw@.len() ==> !raw@.contains(SEPARATOR),
{
    let mut i: usize = 0;
    while i < raw.len()
        invariant
            i <= raw@.len(),
            forall|j: int| 0 <= j < i ==> raw@[j] != SEPARATOR,
        decreases raw@.len() - i,
    {
        if raw[i] == SEPARATOR {
            return i;
        }
        i = i + 1;
    }
    i
}

/// Splits a combined stream on its first separator byte.
pub fn split_output(raw: &[u8]) -> (r: (Vec<u8>, Option<Vec<u8>>))
    ensures
        r.0@ == split_spec(raw@).0,
        match r.1 {
            Some(p) => split_spec(raw@).1 == Some(p@),
            None => split_spec(raw@).1 is None,
        },
{
    let i = separator_index(raw);
    if i < raw.len() {
        proof {
            let k = choose|k: int| is_first_separator(raw@, k);
            lemma_first_separator_unique(raw@, i as int, k);
        }
        let d = slice_range(raw, 0, i);
        let p = slice_range(raw, i + 1, raw.len());
        (d, Some(p))
    } else {
        proof {
            if exists|k: int| is_first_separator(raw@, k) {
                let k = choose|k: int| is_first_separator(raw@, k);
                assert(raw@[k] == SEPARATOR);
                assert(raw@.contains(SEPARATOR));
            }
        }
        let d = slice_range(raw, 0, raw.len());
        assert(raw@.take(raw@.len() as int) =~= raw@);
        (d, None)
    }
}

/// A copy of `raw[lo..hi]`.
fn slice_range(raw: &[u8], lo: usize, hi: usize) -> (r: Vec<u8>)
    requires
        lo <= hi <= raw@.len(),
    ensures
        r@ == raw@.subrange(lo as int, hi as int),
{
    let mut r: Vec<u8> = Vec::new();
    let mut i: usize = lo;
    while i < hi
        invariant
            lo <= i <= hi <= raw@.len(),
            r@ == raw@.subrange(lo as int, i as int),
        decreases hi - i,
    {
        r.push(raw[i]);
        assert(raw@.subrange(lo as int, i + 1) =~= raw@.subrange(lo as int, i as int).push(raw@[i as int]));
        i = i + 1;
    }
    r
}

/// Decodes a combined stream into the diagnostics text and, when the program
/// ran, its output text. A missing separator gives `None`, which differs from
/// a program that ran and printed nothing (`Some` of empty text).
pub fn parse_output(raw: &[u8]) -> (r: (String, Option<String>))
    ensures
        r.0@ == decode_spec(raw@).0,
        match r.1 {
            Some(s) => decode_spec(raw@).1 == Some(s@),
            None => decode_spec(raw@).1 is None,
        },
{
    let (d, p) = split_output(raw);
    let compiler = utf8_lossy(d.as_slice());
    match p {
        Some(p) => (compiler, Some(utf8_lossy(p.as_slice()))),
        None => (compiler, None),
    }
}

/// Splitting the stream that diagnostics free of the separator and an
/// optional program output make gives back exactly those two parts.
pub proof fn lemma_round_trip(diagnostics: Seq<u8>, program: Option<Seq<u8>>)
    requires
        !diagnostics.contains(SEPARATOR),
    ensures
        split_spec(join_spec(diagnostics, program)) == (diagnostics, program),
{
    let raw = join_spec(diagnostics, program);
    match program {
        Some(p) => {
            let n = diagnostics.len() as int;
            assert forall|j: int| 0 <= j < n implies raw[j] != SEPARATOR by {
                if raw[j] == SEPARATOR {
                    assert(diagnostics[j] == SEPARATOR);
                }
            }
            assert(is_first_separator(raw, n));
            let k = choose|k: int| is_first_separator(raw, k);
            lemma_first_separator_unique(raw, n, k);
            assert(raw.take(n) =~= diagnostics);
            assert(raw.skip(n + 1) =~= p);
        },
        None => {
            if exists|k: int| is_first_separator(raw, k) {
                let k = choose|k: int| is_first_separator(raw, k);
                assert(diagnostics[k] == SEPARATOR);
            }
        },
    }
}

/// Decoding the stream that diagnostics free of the separator and an optional
/// program output make gives the text of each part, and no program text
/// exactly when no program output was written.
pub proof fn lemma_decode_round_trip(diagnostics: Seq<u8>, program: Option<Seq<u8>>)
    requires
        !diagnostics.contains(SEPARATOR),
    ensures
        decode_spec(join_spec(diagnostics, program)) == (
            text_of(diagnostics),
            match program {
                Some(p) => Some(text_of(p)),
                None => None,
            },
        ),
{
    lemma_round_trip(diagnostics, program);
}

} // verus!
