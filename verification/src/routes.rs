//! Request routing: the received bytes are matched against a small set of
//! literal prefixes, and the path or body a handler needs is cut out of
//! them. The connection that carried the bytes never appears here — routing
//! is a pure function of the buffer.

use vstd::prelude::*;

verus! {

/// The bytes of `"GET /"`.
pub open spec fn get_prefix() -> Seq<u8> {
    seq!['G' as u8, 'E' as u8, 'T' as u8, ' ' as u8, '/' as u8]
}

/// The bytes of `"GET /d20 HTTP/1.1\r\n"`.
pub open spec fn d20_prefix() -> Seq<u8> {
    seq![
        'G' as u8,
        'E' as u8,
        'T' as u8,
        ' ' as u8,
        '/' as u8,
        'd' as u8,
        '2' as u8,
        '0' as u8,
        ' ' as u8,
        'H' as u8,
        'T' as u8,
        'T' as u8,
        'P' as u8,
        '/' as u8,
        '1' as u8,
        '.' as u8,
        '1' as u8,
        '\r' as u8,
        '\n' as u8,
    ]
}

/// The bytes of `"POST /save HTTP/1.1\r\n"`.
pub open spec fn save_prefix() -> Seq<u8> {
    seq![
        'P' as u8,
        'O' as u8,
        'S' as u8,
        'T' as u8,
        ' ' as u8,
        '/' as u8,
        's' as u8,
        'a' as u8,
        'v' as u8,
        'e' as u8,
        ' ' as u8,
        'H' as u8,
        'T' as u8,
        'T' as u8,
        'P' as u8,
        '/' as u8,
        '1' as u8,
        '.' as u8,
        '1' as u8,
        '\r' as u8,
        '\n' as u8,
    ]
}

/// `p` is a prefix of `b`.
pub open spec fn spec_starts_with(b: Seq<u8>, p: Seq<u8>) -> bool {
    p.len() <= b.len() && b.subrange(0, p.len() as int) == p
}

fn get_prefix_bytes() -> (r: Vec<u8>)
    ensures
        r@ == get_prefix(),
{
    let mut v: Vec<u8> = Vec::new();
    v.push('G' as u8);
    v.push('E' as u8);
    v.push('T' as u8);
    v.push(' ' as u8);
    v.push('/' as u8);
    proof {
        assert(v@ =~= get_prefix());
    }
    v
}

fn d20_prefix_bytes() -> (r: Vec<u8>)
    ensures
        r@ == d20_prefix(),
{
    let mut v: Vec<u8> = Vec::new();
    v.push('G' as u8);
    v.push('E' as u8);
    v.push('T' as u8);
    v.push(' ' as u8);
    v.push('/' as u8);
    v.push('d' as u8);
    v.push('2' as u8);
    v.push('0' as u8);
    v.push(' ' as u8);
    v.push('H' as u8);
    v.push('T' as u8);
    v.push('T' as u8);
    v.push('P' as u8);
    v.push('/' as u8);
    v.push('1' as u8);
    v.push('.' as u8);
    v.push('1' as u8);
    v.push('\r' as u8);
    v.push('\n' as u8);
    proof {
        assert(v@ =~= d20_prefix());
    }
    v
}

fn save_prefix_bytes() -> (r: Vec<u8>)
    ensures
        r@ == save_prefix(),
{
    let mut v: Vec<u8> = Vec::new();
    v.push('P' as u8);
    v.push('O' as u8);
    v.push('S' as u8);
    v.push('T' as u8);
    v.push(' ' as u8);
    v.push('/' as u8);
    v.push('s' as u8);
    v.push('a' as u8);
    v.push('v' as u8);
    v.push('e' as u8);
    v.push(' ' as u8);
    v.push('H' as u8);
    v.push('T' as u8);
    v.push('T' as u8);
    v.push('P' as u8);
    v.push('/' as u8);
    v.push('1' as u8);
    v.push('.' as u8);
    v.push('1' as u8);
    v.push('\r' as u8);
    v.push('\n' as u8);
    proof {
        assert(v@ =~= save_prefix());
    }
    v
}

/// Decide whether `p` is a literal prefix of `b`.
pub fn slice_starts_with(b: &[u8], p: &[u8]) -> (r: bool)
    ensures
        r == spec_starts_with(b@, p@),
{
    if p.len() > b.len() {
        return false;
    }
    let mut i: usize = 0;
    while i < p.len()
        invariant
            i <= p@.len() <= b@.len(),
            forall|k: int| 0 <= k < i ==> b@[k] == p@[k],
        decreases p@.len() - i,
    {
        if b[i] != p[i] {
            proof {
                assert(b@.subrange(0, p@.len() as int)[i as int] == b@[i as int]);
            }
            return false;
        }
        i += 1;
    }
    proof {
        assert(b@.subrange(0, p@.len() as int) =~= p@);
    }
    true
}

/// Where a request is sent, decided from the first bytes received.
#[derive(Clone, Copy, PartialEq, Eq, Structural, Debug)]
pub enum Route {
    /// A roll of the twenty-sided die.
    D20,
    /// A file fetch: the path decides between the index page and a named file.
    FileFetch,
    /// A save of the request body to the persisted-data resource.
    Save,
    /// Nothing matched: answer with the not-found page.
    NotFound,
}

/// The routing rule: the first matching prefix wins, in this order.
pub open spec fn spec_route(b: Seq<u8>) -> Route {
    if spec_starts_with(b, d20_prefix()) {
        Route::D20
    } else if spec_starts_with(b, get_prefix()) {
        Route::FileFetch
    } else if spec_starts_with(b, save_prefix()) {
        Route::Save
    } else {
        Route::NotFound
    }
}

/// Match the received bytes against the known request prefixes.
pub fn match_route(buf: &[u8]) -> (r: Route)
    ensures
        r == spec_route(buf@),
{
    let d20 = d20_prefix_bytes();
    let get = get_prefix_bytes();
    let save = save_prefix_bytes();
    if slice_starts_with(buf, d20.as_slice()) {
        Route::D20
    } else if slice_starts_with(buf, get.as_slice()) {
        Route::FileFetch
    } else if slice_starts_with(buf, save.as_slice()) {
        Route::Save
    } else {
        Route::NotFound
    }
}

/// The position of the first space at or after `from`; the buffer's length
/// when there is none.
pub open spec fn spec_first_space_from(b: Seq<u8>, from: int) -> int
    decreases b.len() - from when 0 <= from <= b.len()
{
    if from >= b.len() {
        b.len() as int
    } else if b[from] == ' ' as u8 {
        from
    } else {
        spec_first_space_from(b, from + 1)
    }
}

proof fn lemma_first_space_char(b: Seq<u8>, from: int, k: int)
    requires
        0 <= from <= k <= b.len(),
        forall|m: int| from <= m < k ==> b[m] != ' ' as u8,
        k == b.len() || b[k] == ' ' as u8,
    ensures
        spec_first_space_from(b, from) == k,
    decreases k - from,
{
    if from < k {
        lemma_first_space_char(b, from + 1, k);
    }
}

/// The path of a request line: the token between the first space and the
/// next space (or the end of the buffer). `None` when the buffer holds no
/// space at all.
pub open spec fn spec_request_path(b: Seq<u8>) -> Option<Seq<u8>> {
    let i = spec_first_space_from(b, 0);
    if i == b.len() {
        None
    } else {
        Some(b.subrange(i + 1, spec_first_space_from(b, i + 1)))
    }
}

/// Cut `buf[lo..hi]` out into a vector of its own.
fn copy_range(buf: &[u8], lo: usize, hi: usize) -> (r: Vec<u8>)
    requires
        lo <= hi <= buf@.len(),
    ensures
        r@ == buf@.subrange(lo as int, hi as int),
{
    let mut r: Vec<u8> = Vec::new();
    let mut k: usize = lo;
    while k < hi
        invariant
            lo <= k <= hi <= buf@.len(),
            r@ == buf@.subrange(lo as int, k as int),
        decreases hi - k,
    {
        r.push(buf[k]);
        proof {
            assert(r@ =~= buf@.subrange(lo as int, k as int + 1));
        }
        k += 1;
    }
    r
}

/// Find the first space at or after `from`.
fn find_space_from(buf: &[u8], from: usize) -> (r: usize)
    requires
        from <= buf@.len(),
    ensures
        r == spec_first_space_from(buf@, from as int),
        from <= r <= buf@.len(),
        r < buf@.len() ==> buf@[r as int] == ' ' as u8,
{
    let mut k: usize = from;
    while k < buf.len()
        invariant
            from <= k <= buf@.len(),
            forall|m: int| from <= m < k ==> buf@[m] != ' ' as u8,
        decreases buf@.len() - k,
    {
        if buf[k] == ' ' as u8 {
            proof {
                lemma_first_space_char(buf@, from as int, k as int);
            }
            return k;
        }
        k += 1;
    }
    proof {
        lemma_first_space_char(buf@, from as int, buf@.len() as int);
    }
    k
}

/// Extract the request path, exactly as the routing rule defines it.
pub fn request_path(buf: &[u8]) -> (r: Option<Vec<u8>>)
    ensures
        (r is None) == (spec_request_path(buf@) is None),
        r matches Some(p) ==> spec_request_path(buf@) == Some(p@),
{
    let i = find_space_from(buf, 0);
    if i == buf.len() {
        return None;
    }
    let j = find_space_from(buf, i + 1);
    Some(copy_range(buf, i + 1, j))
}

/// What a file fetch serves, decided from the path alone.
#[derive(Debug)]
pub enum GetTarget {
    /// The bare root path: serve the index page.
    Index,
    /// Any longer path: serve the named file (the path with its leading
    /// slash removed).
    NamedFile(Vec<u8>),
}

/// Decide between the index page and a named file. A path of one byte is
/// the bare `/`; anything longer names a file.
pub fn get_target(path: &[u8]) -> (r: GetTarget)
    requires
        path@.len() >= 1,
    ensures
        path@.len() == 1 ==> r is Index,
        path@.len() > 1 ==> (r matches GetTarget::NamedFile(name) && name@ == path@.subrange(
            1,
            path@.len() as int,
        )),
{
    if path.len() == 1 {
        GetTarget::Index
    } else {
        GetTarget::NamedFile(copy_range(path, 1, path.len()))
    }
}

/// The bytes of the blank line `"\r\n\r\n"` that ends the header block.
pub open spec fn header_end_marker() -> Seq<u8> {
    seq!['\r' as u8, '\n' as u8, '\r' as u8, '\n' as u8]
}

/// The header-end marker sits at position `i` of `b`.
pub open spec fn marker_at(b: Seq<u8>, i: int) -> bool {
    0 <= i && i + 4 <= b.len() && b.subrange(i, i + 4) == header_end_marker()
}

/// The position of the first header-end marker at or after `from`; the
/// buffer's length when there is none.
pub open spec fn spec_first_marker_from(b: Seq<u8>, from: int) -> int
    decreases b.len() - from when 0 <= from <= b.len()
{
    if from + 4 > b.len() {
        b.len() as int
    } else if marker_at(b, from) {
        from
    } else {
        spec_first_marker_from(b, from + 1)
    }
}

proof fn lemma_first_marker_char(b: Seq<u8>, from: int, k: int)
    requires
        0 <= from <= k <= b.len(),
        forall|m: int| from <= m < k ==> !marker_at(b, m),
        k == b.len() || marker_at(b, k),
    ensures
        spec_first_marker_from(b, from) == k,
    decreases k - from,
{
    if from < k {
        if from + 4 > b.len() {
            assert(forall|m: int| from <= m ==> !marker_at(b, m));
            assert(k == b.len());
        } else {
            lemma_first_marker_char(b, from + 1, k);
        }
    }
}

/// The body a save request stores: everything after the first header-end
/// marker, the submitted body and nothing of the blank line. `None` when no
/// marker is found.
pub open spec fn spec_save_body(b: Seq<u8>) -> Option<Seq<u8>> {
    let i = spec_first_marker_from(b, 0);
    if i == b.len() {
        None
    } else {
        Some(b.subrange(i + 4, b.len() as int))
    }
}

/// Extract the body of a save request, exactly as `spec_save_body` defines
/// it.
pub fn save_body(buf: &[u8]) -> (r: Option<Vec<u8>>)
    ensures
        (r is None) == (spec_save_body(buf@) is None),
        r matches Some(p) ==> spec_save_body(buf@) == Some(p@),
{
    if buf.len() < 4 {
        proof {
            assert(forall|m: int| 0 <= m < buf@.len() ==> !marker_at(buf@, m));
            lemma_first_marker_char(buf@, 0, buf@.len() as int);
        }
        return None;
    }
    let stop = buf.len() - 4;
    let mut k: usize = 0;
    while k <= stop
        invariant
            buf@.len() >= 4,
            stop == buf@.len() - 4,
            k <= stop + 1,
            forall|m: int| 0 <= m < k ==> !marker_at(buf@, m),
        decreases stop + 1 - k,
    {
        if buf[k] == '\r' as u8 && buf[k + 1] == '\n' as u8 && buf[k + 2] == '\r' as u8 && buf[k
            + 3] == '\n' as u8 {
            proof {
                assert(buf@.subrange(k as int, k as int + 4) =~= header_end_marker());
                lemma_first_marker_char(buf@, 0, k as int);
            }
            return Some(copy_range(buf, k + 4, buf.len()));
        }
        proof {
            assert(!marker_at(buf@, k as int)) by {
                if marker_at(buf@, k as int) {
                    assert(buf@.subrange(k as int, k as int + 4)[0] == buf@[k as int]);
                    assert(buf@.subrange(k as int, k as int + 4)[1] == buf@[k as int + 1]);
                    assert(buf@.subrange(k as int, k as int + 4)[2] == buf@[k as int + 2]);
                    assert(buf@.subrange(k as int, k as int + 4)[3] == buf@[k as int + 3]);
                }
            }
        }
        k += 1;
    }
    proof {
        assert(forall|m: int| 0 <= m < buf@.len() ==> !marker_at(buf@, m));
        lemma_first_marker_char(buf@, 0, buf@.len() as int);
    }
    None
}

} // verus!
