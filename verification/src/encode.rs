//! Request construction: the destination name of each upload part and the
//! repeated form fields of a delete request.
use crate::ext::chars_to_string;
use crate::transport::{mp_add, mp_finish, mp_new, mp_parts};
use crate::{Error, UploadEntry};
use vstd::prelude::*;
use vstd::string::{StrSliceExecFns, StringExecFns, StringSliceAdditionalSpecFns};

verus! {

/// The destination with its trailing separators removed.
pub open spec fn strip_tr(s: Seq<char>) -> Seq<char>
    decreases s.len(),
{
    if s.len() > 0 && s[s.len() - 1] == '/' {
        strip_tr(s.drop_last())
    } else {
        s
    }
}

/// Where the last path segment of `t` begins.
pub open spec fn seg_start(t: Seq<char>) -> int
    decreases t.len(),
{
    if t.len() == 0 {
        0
    } else if t[t.len() - 1] == '/' {
        t.len() as int
    } else {
        seg_start(t.drop_last())
    }
}

/// The final path segment of a destination: the part name its upload
/// travels under.  A destination without one (empty, separators only, or
/// ending in a relative component) has none.
pub open spec fn final_segment_spec(s: Seq<char>) -> Option<Seq<char>> {
    let t = strip_tr(s);
    if t.len() == 0 {
        None
    } else {
        let b = seg_start(t);
        if !(0 <= b && b <= t.len()) {
            None
        } else {
            let seg = t.subrange(b, t.len() as int);
            if seg == seq!['.'] || seg == seq!['.', '.'] {
                None
            } else if seg.len() == 0 {
                None
            } else {
                Some(seg)
            }
        }
    }
}

/// A destination that names a part.
pub open spec fn valid_dest(s: Seq<char>) -> bool {
    final_segment_spec(s) is Some
}

/// `j` is the first position whose destination names no part.
pub open spec fn first_invalid(es: Seq<UploadEntry>, j: int) -> bool {
    0 <= j < es.len() && !valid_dest(es[j].dest@) && (forall|t: int|
        0 <= t < j ==> valid_dest(#[trigger] es[t].dest@))
}

/// The final path segment of a destination, or nothing where the
/// destination does not name one.
pub fn final_segment(dest: &str) -> (r: Option<String>)
    ensures
        match final_segment_spec(dest@) {
            None => r is None,
            Some(g) => r matches Some(v) && v@ == g,
        },
{
    let n = dest.unicode_len();
    let mut e: usize = n;
    proof {
        assert(dest@.subrange(0, n as int) =~= dest@);
    }
    while e > 0 && dest.get_char(e - 1) == '/'
        invariant
            e <= n,
            n == dest@.len(),
            strip_tr(dest@) == strip_tr(dest@.subrange(0, e as int)),
        decreases e,
    {
        proof {
            assert(dest@.subrange(0, e as int).drop_last() =~= dest@.subrange(0, e - 1));
        }
        e = e - 1;
    }
    let ghost t = dest@.subrange(0, e as int);
    proof {
        assert(strip_tr(dest@) == t);
    }
    if e == 0 {
        return None;
    }
    let mut b: usize = e;
    proof {
        assert(t.subrange(0, e as int) =~= t);
    }
    while b > 0 && dest.get_char(b - 1) != '/'
        invariant
            b <= e <= n,
            n == dest@.len(),
            t == dest@.subrange(0, e as int),
            seg_start(t) == seg_start(t.subrange(0, b as int)),
        decreases b,
    {
        proof {
            assert(t.subrange(0, b as int).drop_last() =~= t.subrange(0, b - 1));
        }
        b = b - 1;
    }
    proof {
        assert(seg_start(t) == b as int);
    }
    let mut v: Vec<char> = Vec::new();
    let mut q: usize = b;
    while q < e
        invariant
            b <= q <= e <= n,
            n == dest@.len(),
            v@ == dest@.subrange(b as int, q as int),
        decreases e - q,
    {
        v.push(dest.get_char(q));
        q = q + 1;
        proof {
            assert(dest@.subrange(b as int, q as int) =~= dest@.subrange(
                b as int,
                q - 1,
            ).push(dest@[q - 1]));
        }
    }
    proof {
        assert(t.subrange(seg_start(t), t.len() as int) =~= dest@.subrange(b as int, e as int));
    }
    if v.len() == 0 {
        return None;
    }
    if v.len() == 1 && v[0] == '.' {
        proof {
            assert(v@ =~= seq!['.']);
        }
        return None;
    }
    if v.len() == 2 && v[0] == '.' && v[1] == '.' {
        proof {
            assert(v@ =~= seq!['.', '.']);
        }
        return None;
    }
    proof {
        assert(v@ != seq!['.'] && v@ != seq!['.', '.']) by {
            if v@ == seq!['.'] {
                assert(v@.len() == 1 && v@[0] == '.');
            }
            if v@ == seq!['.', '.'] {
                assert(v@.len() == 2 && v@[0] == '.' && v@[1] == '.');
            }
        }
    }
    Some(chars_to_string(&v))
}

fn copy_bytes(src: &Vec<u8>) -> (r: Vec<u8>)
    ensures
        r@ == src@,
{
    let mut r: Vec<u8> = Vec::new();
    let mut q: usize = 0;
    while q < src.len()
        invariant
            q <= src@.len(),
            r@ == src@.subrange(0, q as int),
        decreases src@.len() - q,
    {
        r.push(src[q]);
        q = q + 1;
        proof {
            assert(src@.subrange(0, q as int) =~= src@.subrange(0, q - 1).push(src@[q - 1]));
        }
    }
    proof {
        assert(src@.subrange(0, src@.len() as int) =~= src@);
    }
    r
}

/// One named part per entry: the name is the destination's final path
/// segment, the content is the entry's bytes.  The first destination
/// that names no part is reported as invalid, before anything is sent.
pub fn encode_parts(entries: &Vec<UploadEntry>) -> (r: Result<Vec<(String, Vec<u8>)>, Error>)
    ensures
        match r {
            Ok(ps) => ps@.len() == entries@.len() && forall|t: int|
                0 <= t < ps@.len() ==> final_segment_spec((#[trigger] entries@[t]).dest@) == Some(
                    ps@[t].0@,
                ) && ps@[t].1@ == entries@[t].content@,
            Err(e) => e matches Error::Path(p) && exists|j: int|
                #[trigger] first_invalid(entries@, j) && p@ == entries@[j].dest@,
        },
{
    let mut ps: Vec<(String, Vec<u8>)> = Vec::new();
    let mut q: usize = 0;
    while q < entries.len()
        invariant
            q <= entries@.len(),
            ps@.len() == q as int,
            forall|t: int|
                0 <= t < q as int ==> final_segment_spec((#[trigger] entries@[t]).dest@) == Some(
                    ps@[t].0@,
                ) && ps@[t].1@ == entries@[t].content@,
        decreases entries@.len() - q,
    {
        match final_segment(entries[q].dest.as_str()) {
            Some(name) => {
                ps.push((name, copy_bytes(&entries[q].content)));
            },
            None => {
                proof {
                    assert(first_invalid(entries@, q as int));
                }
                return Err(Error::Path(entries[q].dest.clone()));
            },
        }
        q = q + 1;
    }
    Ok(ps)
}

pub open spec fn parts_rep(ps: Seq<(String, Vec<u8>)>) -> Seq<(Seq<char>, Seq<u8>)> {
    ps.map_values(|p: (String, Vec<u8>)| (p.0@, p.1@))
}

/// The body of a batch with nothing in it: one closing frame around a
/// fixed boundary.  With no parts, no content can collide with it, so
/// no fresh draw is needed.
fn empty_upload_body() -> (r: (String, Vec<u8>))
    ensures
        r.0@ == "NeoEmptyBatchBoundary"@,
        r.1@ == "--NeoEmptyBatchBoundary--\r\n".spec_bytes(),
{
    let boundary = String::from_str("NeoEmptyBatchBoundary");
    let body = "--NeoEmptyBatchBoundary--\r\n".as_bytes_vec();
    (boundary, body)
}

/// The whole upload body: parts are handed to the multipart encoder in
/// entry order, and the generated boundary comes back with the bytes.
/// An encoder failure surfaces as a transport error; a batch of zero
/// entries encodes to the empty frame and fails nowhere.
pub fn encode_upload_body(entries: &Vec<UploadEntry>) -> (r: Result<(String, Vec<u8>), Error>)
    ensures
        r matches Err(e) ==> (e matches Error::Path(p) ==> exists|j: int|
            #[trigger] first_invalid(entries@, j) && p@ == entries@[j].dest@),
        (exists|j: int| 0 <= j < entries@.len() && !valid_dest((#[trigger] entries@[j]).dest@))
            ==> (r matches Err(e) && e is Path),
        r matches Err(e) ==> e is Path || e is Transport,
        entries@.len() == 0 ==> (r matches Ok(p) && p.0@ == "NeoEmptyBatchBoundary"@ && p.1@
            == "--NeoEmptyBatchBoundary--\r\n".spec_bytes()),
{
    let parts = match encode_parts(entries) {
        Ok(p) => p,
        Err(e) => {
            return Err(e);
        },
    };
    if parts.len() == 0 {
        return Ok(empty_upload_body());
    }
    let mut m = mp_new();
    let mut q: usize = 0;
    proof {
        assert(parts_rep(parts@.subrange(0, 0)) =~= Seq::<(Seq<char>, Seq<u8>)>::empty());
    }
    while q < parts.len()
        invariant
            q <= parts@.len(),
            mp_parts(m) == parts_rep(parts@.subrange(0, q as int)),
        decreases parts@.len() - q,
    {
        mp_add(&mut m, parts[q].0.as_str(), &parts[q].1);
        q = q + 1;
        proof {
            assert(parts_rep(parts@.subrange(0, q as int)) =~= parts_rep(
                parts@.subrange(0, q - 1),
            ).push((parts@[q - 1].0@, parts@[q - 1].1@)));
        }
    }
    match mp_finish(&mut m) {
        Ok(x) => Ok(x),
        Err(d) => Err(Error::Transport(d)),
    }
}

/// One `filenames[]` field per path, in the order given.
pub fn form_pairs<'a>(paths: &'a Vec<String>) -> (r: Vec<(&'a str, &'a str)>)
    ensures
        r@.len() == paths@.len(),
        forall|t: int|
            0 <= t < r@.len() ==> (#[trigger] r@[t]).0@ == "filenames[]"@ && r@[t].1@ == paths@[t]@,
{
    let mut r: Vec<(&str, &str)> = Vec::new();
    let mut q: usize = 0;
    while q < paths.len()
        invariant
            q <= paths@.len(),
            r@.len() == q as int,
            forall|t: int|
                0 <= t < q as int ==> (#[trigger] r@[t]).0@ == "filenames[]"@ && r@[t].1@
                    == paths@[t]@,
        decreases paths@.len() - q,
    {
        r.push(("filenames[]", paths[q].as_str()));
        q = q + 1;
    }
    r
}

} // verus!
