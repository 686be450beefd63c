//! Decoding of the two JSON body shapes the service answers with: the
//! listing body `{ "files": [ ... ] }` and the error body
//! `{ "message": ... }`.  Fields that this client does not know are
//! skipped, as a tolerant reader must.
use crate::ext::chars_to_string;
use crate::json::{
    lit_false_at, lit_false_x, lit_null_at, lit_null_x, lit_true_at, lit_true_x, parse_string,
    parse_string_x, parse_usize, parse_usize_x, skip_value, skip_value_x, skip_ws, skip_ws_x,
};
use crate::File;
use vstd::prelude::*;
use vstd::string::StrSliceExecFns;

verus! {

/// The mathematical shape of one listing entry.
pub struct FileV {
    pub path: Seq<char>,
    pub is_directory: bool,
    pub size: Option<usize>,
    pub updated_at: Seq<char>,
    pub sha1_hash: Option<Seq<char>>,
}

impl FileV {
    /// Directories carry neither a size nor a content digest.
    pub open spec fn wf(self) -> bool {
        self.is_directory ==> self.size is None && self.sha1_hash is None
    }
}

impl View for File {
    type V = FileV;

    open spec fn view(&self) -> FileV {
        FileV {
            path: self.path@,
            is_directory: self.is_directory,
            size: self.size,
            updated_at: self.updated_at@,
            sha1_hash: match self.sha1_hash {
                Some(s) => Some(s@),
                None => None,
            },
        }
    }
}

pub open spec fn files_rep(v: Seq<File>) -> Seq<FileV> {
    v.map_values(|f: File| f@)
}

/// What has been seen of one entry's fields while its members are read.
pub struct FileAccV {
    pub path: Option<Seq<char>>,
    pub is_directory: Option<bool>,
    pub size: Option<Option<usize>>,
    pub updated_at: Option<Seq<char>>,
    pub sha1_hash: Option<Option<Seq<char>>>,
}

pub open spec fn empty_acc() -> FileAccV {
    FileAccV { path: None, is_directory: None, size: None, updated_at: None, sha1_hash: None }
}

pub open spec fn flat<A>(x: Option<Option<A>>) -> Option<A> {
    match x {
        Some(y) => y,
        None => None,
    }
}

/// The members of one entry object, read from `i` (just past `{` or past
/// the previous member).  Known keys bind their field, later occurrences
/// replacing earlier ones; unknown keys are skipped.
#[verifier::opaque]
pub open spec fn file_fields(s: Seq<char>, i: int, first: bool, acc: FileAccV) -> Option<
    (FileAccV, int),
>
    decreases s.len() - i,
{
    if !(0 <= i && i <= s.len()) {
        None
    } else {
        let j = skip_ws(s, i);
        if !(i <= j && j < s.len()) {
            None
        } else if s[j] == '}' {
            Some((acc, j + 1))
        } else {
            let j1: int = if first {
                j
            } else if s[j] == ',' {
                skip_ws(s, j + 1)
            } else {
                -1
            };
            if !(j <= j1 && j1 < s.len()) {
                None
            } else {
                match parse_string(s, j1) {
                    None => None,
                    Some(p) => {
                        let key = p.0;
                        let k1 = p.1;
                        if !(j1 < k1 && k1 <= s.len()) {
                            None
                        } else {
                            let k2 = skip_ws(s, k1);
                            if !(k1 <= k2 && k2 < s.len()) {
                                None
                            } else if s[k2] != ':' {
                                None
                            } else {
                                let v0 = skip_ws(s, k2 + 1);
                                if !(k2 + 1 <= v0 && v0 <= s.len()) {
                                    None
                                } else if key == "path"@ {
                                    match parse_string(s, v0) {
                                        Some(q) => if v0 < q.1 && q.1 <= s.len() {
                                            file_fields(
                                                s,
                                                q.1,
                                                false,
                                                FileAccV { path: Some(q.0), ..acc },
                                            )
                                        } else {
                                            None
                                        },
                                        None => None,
                                    }
                                } else if key == "is_directory"@ {
                                    if lit_true_at(s, v0) {
                                        file_fields(
                                            s,
                                            v0 + 4,
                                            false,
                                            FileAccV { is_directory: Some(true), ..acc },
                                        )
                                    } else if lit_false_at(s, v0) {
                                        file_fields(
                                            s,
                                            v0 + 5,
                                            false,
                                            FileAccV { is_directory: Some(false), ..acc },
                                        )
                                    } else {
                                        None
                                    }
                                } else if key == "size"@ {
                                    if lit_null_at(s, v0) {
                                        file_fields(
                                            s,
                                            v0 + 4,
                                            false,
                                            FileAccV { size: Some(None), ..acc },
                                        )
                                    } else {
                                        match parse_usize(s, v0) {
                                            Some(q) => if v0 < q.1 && q.1 <= s.len() {
                                                file_fields(
                                                    s,
                                                    q.1,
                                                    false,
                                                    FileAccV { size: Some(Some(q.0)), ..acc },
                                                )
                                            } else {
                                                None
                                            },
                                            None => None,
                                        }
                                    }
                                } else if key == "updated_at"@ {
                                    match parse_string(s, v0) {
                                        Some(q) => if v0 < q.1 && q.1 <= s.len() {
                                            file_fields(
                                                s,
                                                q.1,
                                                false,
                                                FileAccV { updated_at: Some(q.0), ..acc },
                                            )
                                        } else {
                                            None
                                        },
                                        None => None,
                                    }
                                } else if key == "sha1_hash"@ {
                                    if lit_null_at(s, v0) {
                                        file_fields(
                                            s,
                                            v0 + 4,
                                            false,
                                            FileAccV { sha1_hash: Some(None), ..acc },
                                        )
                                    } else {
                                        match parse_string(s, v0) {
                                            Some(q) => if v0 < q.1 && q.1 <= s.len() {
                                                file_fields(
                                                    s,
                                                    q.1,
                                                    false,
                                                    FileAccV { sha1_hash: Some(Some(q.0)), ..acc },
                                                )
                                            } else {
                                                None
                                            },
                                            None => None,
                                        }
                                    }
                                } else {
                                    match skip_value(s, v0) {
                                        Some(k) => if v0 < k && k <= s.len() {
                                            file_fields(s, k, false, acc)
                                        } else {
                                            None
                                        },
                                        None => None,
                                    }
                                }
                            }
                        }
                    },
                }
            }
        }
    }
}

/// One entry object starting with `{` at `i`.  The three required fields
/// must have been seen; a directory is normalized to carry no size and
/// no digest.
#[verifier::opaque]
pub open spec fn parse_file(s: Seq<char>, i: int) -> Option<(FileV, int)> {
    if !(0 <= i && i < s.len() && s[i] == '{') {
        None
    } else {
        match file_fields(s, i + 1, true, empty_acc()) {
            None => None,
            Some((a, k)) => {
                if a.path is Some && a.is_directory is Some && a.updated_at is Some {
                    let d = a.is_directory.unwrap();
                    Some(
                        (
                            FileV {
                                path: a.path.unwrap(),
                                is_directory: d,
                                size: if d {
                                    None
                                } else {
                                    flat(a.size)
                                },
                                updated_at: a.updated_at.unwrap(),
                                sha1_hash: if d {
                                    None
                                } else {
                                    flat(a.sha1_hash)
                                },
                            },
                            k,
                        ),
                    )
                } else {
                    None
                }
            },
        }
    }
}

/// The elements of the `files` array, in the order they stand in the body.
#[verifier::opaque]
pub open spec fn files_elems(s: Seq<char>, i: int, first: bool, acc: Seq<FileV>) -> Option<
    (Seq<FileV>, int),
>
    decreases s.len() - i,
{
    if !(0 <= i && i <= s.len()) {
        None
    } else {
        let j = skip_ws(s, i);
        if !(i <= j && j < s.len()) {
            None
        } else if s[j] == ']' {
            Some((acc, j + 1))
        } else if first {
            match parse_file(s, j) {
                Some(p) => if j < p.1 && p.1 <= s.len() {
                    files_elems(s, p.1, false, acc.push(p.0))
                } else {
                    None
                },
                None => None,
            }
        } else if s[j] == ',' {
            let j2 = skip_ws(s, j + 1);
            if !(j + 1 <= j2 && j2 <= s.len()) {
                None
            } else {
                match parse_file(s, j2) {
                    Some(p) => if j2 < p.1 && p.1 <= s.len() {
                        files_elems(s, p.1, false, acc.push(p.0))
                    } else {
                        None
                    },
                    None => None,
                }
            }
        } else {
            None
        }
    }
}

/// The members of the listing body's top object: `files` must hold an
/// array of entries, anything else is skipped.
#[verifier::opaque]
pub open spec fn list_fields(s: Seq<char>, i: int, first: bool, acc: Option<Seq<FileV>>) -> Option<
    (Option<Seq<FileV>>, int),
>
    decreases s.len() - i,
{
    if !(0 <= i && i <= s.len()) {
        None
    } else {
        let j = skip_ws(s, i);
        if !(i <= j && j < s.len()) {
            None
        } else if s[j] == '}' {
            Some((acc, j + 1))
        } else {
            let j1: int = if first {
                j
            } else if s[j] == ',' {
                skip_ws(s, j + 1)
            } else {
                -1
            };
            if !(j <= j1 && j1 < s.len()) {
                None
            } else {
                match parse_string(s, j1) {
                    None => None,
                    Some(p) => {
                        let key = p.0;
                        let k1 = p.1;
                        if !(j1 < k1 && k1 <= s.len()) {
                            None
                        } else {
                            let k2 = skip_ws(s, k1);
                            if !(k1 <= k2 && k2 < s.len()) {
                                None
                            } else if s[k2] != ':' {
                                None
                            } else {
                                let v0 = skip_ws(s, k2 + 1);
                                if !(k2 + 1 <= v0 && v0 <= s.len()) {
                                    None
                                } else if key == "files"@ {
                                    if !(v0 < s.len() && s[v0] == '[') {
                                        None
                                    } else {
                                        match files_elems(s, v0 + 1, true, Seq::empty()) {
                                            Some(p2) => if v0 < p2.1 && p2.1 <= s.len() {
                                                list_fields(s, p2.1, false, Some(p2.0))
                                            } else {
                                                None
                                            },
                                            None => None,
                                        }
                                    }
                                } else {
                                    match skip_value(s, v0) {
                                        Some(k) => if v0 < k && k <= s.len() {
                                            list_fields(s, k, false, acc)
                                        } else {
                                            None
                                        },
                                        None => None,
                                    }
                                }
                            }
                        }
                    },
                }
            }
        }
    }
}

/// The members of an error body's top object: `message` must hold a
/// string, anything else is skipped.
#[verifier::opaque]
pub open spec fn message_fields(s: Seq<char>, i: int, first: bool, acc: Option<Seq<char>>) -> Option<
    (Option<Seq<char>>, int),
>
    decreases s.len() - i,
{
    if !(0 <= i && i <= s.len()) {
        None
    } else {
        let j = skip_ws(s, i);
        if !(i <= j && j < s.len()) {
            None
        } else if s[j] == '}' {
            Some((acc, j + 1))
        } else {
            let j1: int = if first {
                j
            } else if s[j] == ',' {
                skip_ws(s, j + 1)
            } else {
                -1
            };
            if !(j <= j1 && j1 < s.len()) {
                None
            } else {
                match parse_string(s, j1) {
                    None => None,
                    Some(p) => {
                        let key = p.0;
                        let k1 = p.1;
                        if !(j1 < k1 && k1 <= s.len()) {
                            None
                        } else {
                            let k2 = skip_ws(s, k1);
                            if !(k1 <= k2 && k2 < s.len()) {
                                None
                            } else if s[k2] != ':' {
                                None
                            } else {
                                let v0 = skip_ws(s, k2 + 1);
                                if !(k2 + 1 <= v0 && v0 <= s.len()) {
                                    None
                                } else if key == "message"@ {
                                    match parse_string(s, v0) {
                                        Some(q) => if v0 < q.1 && q.1 <= s.len() {
                                            message_fields(s, q.1, false, Some(q.0))
                                        } else {
                                            None
                                        },
                                        None => None,
                                    }
                                } else {
                                    match skip_value(s, v0) {
                                        Some(k) => if v0 < k && k <= s.len() {
                                            message_fields(s, k, false, acc)
                                        } else {
                                            None
                                        },
                                        None => None,
                                    }
                                }
                            }
                        }
                    },
                }
            }
        }
    }
}

/// The listing a well-formed listing body describes, in body order.
pub open spec fn parse_list_body(s: Seq<char>) -> Option<Seq<FileV>> {
    let j = skip_ws(s, 0);
    if !(0 <= j && j < s.len() && s[j] == '{') {
        None
    } else {
        match list_fields(s, j + 1, true, None) {
            Some(p) => if p.0 is Some && 0 <= p.1 <= s.len() && skip_ws(s, p.1) == s.len() {
                Some(p.0.unwrap())
            } else {
                None
            },
            None => None,
        }
    }
}

/// The message a well-formed error body carries.
pub open spec fn parse_message_body(s: Seq<char>) -> Option<Seq<char>> {
    let j = skip_ws(s, 0);
    if !(0 <= j && j < s.len() && s[j] == '{') {
        None
    } else {
        match message_fields(s, j + 1, true, None) {
            Some(p) => if p.0 is Some && 0 <= p.1 <= s.len() && skip_ws(s, p.1) == s.len() {
                Some(p.0.unwrap())
            } else {
                None
            },
            None => None,
        }
    }
}

/// The message the client reports for an error body: what the body
/// carries, or empty where the body cannot be read.
pub open spec fn message_text(s: Seq<char>) -> Seq<char> {
    match parse_message_body(s) {
        Some(m) => m,
        None => Seq::empty(),
    }
}

/// Every entry in `fs` is well formed.
pub open spec fn all_wf(fs: Seq<FileV>) -> bool {
    forall|t: int| 0 <= t < fs.len() ==> (#[trigger] fs[t]).wf()
}

pub proof fn lemma_parse_file_wf(s: Seq<char>, i: int)
    ensures
        parse_file(s, i) matches Some(p) ==> p.0.wf(),
{
    reveal(parse_file);
}

pub proof fn lemma_files_elems_wf(s: Seq<char>, i: int, first: bool, acc: Seq<FileV>)
    requires
        all_wf(acc),
    ensures
        files_elems(s, i, first, acc) matches Some(p) ==> all_wf(p.0),
    decreases s.len() - i,
{
    reveal(files_elems);
    if 0 <= i && i <= s.len() {
        let j = skip_ws(s, i);
        if i <= j && j < s.len() {
            if s[j] == ']' {
            } else if first {
                match parse_file(s, j) {
                    Some(p) => {
                        if j < p.1 && p.1 <= s.len() {
                            lemma_parse_file_wf(s, j);
                            lemma_files_elems_wf(s, p.1, false, acc.push(p.0));
                        }
                    },
                    None => {},
                }
            } else if s[j] == ',' {
                let j2 = skip_ws(s, j + 1);
                if j + 1 <= j2 && j2 <= s.len() {
                    match parse_file(s, j2) {
                        Some(p) => {
                            if j2 < p.1 && p.1 <= s.len() {
                                lemma_parse_file_wf(s, j2);
                                lemma_files_elems_wf(s, p.1, false, acc.push(p.0));
                            }
                        },
                        None => {},
                    }
                }
            }
        }
    }
}

/// The entries bound so far, and finally, are well formed.
pub open spec fn list_out_wf(g: Option<(Option<Seq<FileV>>, int)>) -> bool {
    match g {
        Some(p) => match p.0 {
            Some(a2) => all_wf(a2),
            None => true,
        },
        None => true,
    }
}

#[verifier::rlimit(100)]
#[verifier::spinoff_prover]
pub proof fn lemma_list_fields_wf(s: Seq<char>, i: int, first: bool, acc: Option<Seq<FileV>>)
    requires
        acc matches Some(a) ==> all_wf(a),
    ensures
        list_out_wf(list_fields(s, i, first, acc)),
    decreases s.len() - i,
{
    reveal(list_fields);
    if 0 <= i && i <= s.len() {
        let j = skip_ws(s, i);
        if i <= j && j < s.len() && s[j] != '}' {
            let j1: int = if first {
                j
            } else if s[j] == ',' {
                skip_ws(s, j + 1)
            } else {
                -1
            };
            if j <= j1 && j1 < s.len() {
                match parse_string(s, j1) {
                    None => {},
                    Some(p) => {
                        let key = p.0;
                        let k1 = p.1;
                        if j1 < k1 && k1 <= s.len() {
                            let k2 = skip_ws(s, k1);
                            if k1 <= k2 && k2 < s.len() && s[k2] == ':' {
                                let v0 = skip_ws(s, k2 + 1);
                                if k2 + 1 <= v0 && v0 <= s.len() {
                                    if key == "files"@ {
                                        if v0 < s.len() && s[v0] == '[' {
                                            match files_elems(s, v0 + 1, true, Seq::empty()) {
                                                Some(p2) => {
                                                    if v0 < p2.1 && p2.1 <= s.len() {
                                                        lemma_files_elems_wf(
                                                            s,
                                                            v0 + 1,
                                                            true,
                                                            Seq::empty(),
                                                        );
                                                        lemma_list_fields_wf(
                                                            s,
                                                            p2.1,
                                                            false,
                                                            Some(p2.0),
                                                        );
                                                    }
                                                },
                                                None => {},
                                            }
                                        }
                                    } else {
                                        match skip_value(s, v0) {
                                            Some(k) => {
                                                if v0 < k && k <= s.len() {
                                                    lemma_list_fields_wf(s, k, false, acc);
                                                }
                                            },
                                            None => {},
                                        }
                                    }
                                }
                            }
                        }
                    },
                }
            }
        }
    }
}

/// Every entry a well-formed listing body describes is well formed.
pub proof fn lemma_parse_list_body_wf(s: Seq<char>)
    ensures
        parse_list_body(s) matches Some(fs) ==> all_wf(fs),
{
    let j = skip_ws(s, 0);
    if 0 <= j && j < s.len() && s[j] == '{' {
        lemma_list_fields_wf(s, j + 1, true, None);
    }
}

/// What has been seen of one entry's fields, executably.
pub(crate) struct FileAcc {
    pub path: Option<Vec<char>>,
    pub is_directory: Option<bool>,
    pub size: Option<Option<usize>>,
    pub updated_at: Option<Vec<char>>,
    pub sha1_hash: Option<Option<Vec<char>>>,
}

impl View for FileAcc {
    type V = FileAccV;

    closed spec fn view(&self) -> FileAccV {
        FileAccV {
            path: match self.path {
                Some(ref v) => Some(v@),
                None => None,
            },
            is_directory: self.is_directory,
            size: self.size,
            updated_at: match self.updated_at {
                Some(ref v) => Some(v@),
                None => None,
            },
            sha1_hash: match self.sha1_hash {
                Some(Some(ref v)) => Some(Some(v@)),
                Some(None) => Some(None),
                None => None,
            },
        }
    }
}

pub(crate) fn chars_eq_str(k: &Vec<char>, lit: &str) -> (b: bool)
    ensures
        b == (k@ == lit@),
{
    let n = lit.unicode_len();
    if k.len() != n {
        proof {
            assert(k@.len() != lit@.len());
        }
        return false;
    }
    let mut t: usize = 0;
    while t < n
        invariant
            n == lit@.len(),
            k@.len() == n,
            t <= n,
            forall|q: int| 0 <= q < t ==> k@[q] == lit@[q],
        decreases n - t,
    {
        if k[t] != lit.get_char(t) {
            return false;
        }
        t = t + 1;
    }
    proof {
        assert(k@ =~= lit@);
    }
    true
}

pub(crate) open spec fn rel_acc(
    g: Option<(FileAccV, int)>,
    r: Option<(FileAcc, usize)>,
    n: usize,
) -> bool {
    match g {
        None => r is None,
        Some(p) => r matches Some(q) && q.0@ == p.0 && q.1 as int == p.1 && q.1 <= n,
    }
}

pub(crate) fn file_fields_x(s: &str, n: usize, i: usize, first: bool, acc: FileAcc) -> (r: Option<
    (FileAcc, usize),
>)
    requires
        n == s@.len(),
        i <= n,
    ensures
        rel_acc(file_fields(s@, i as int, first, acc@), r, n),
    decreases n - i,
{
    proof {
        reveal(file_fields);
    }
    let j = skip_ws_x(s, n, i);
    if j >= n {
        return None;
    }
    let cj = s.get_char(j);
    if cj == '}' {
        return Some((acc, j + 1));
    }
    let j1: usize = if first {
        j
    } else {
        if cj != ',' {
            return None;
        }
        skip_ws_x(s, n, j + 1)
    };
    if j1 >= n {
        return None;
    }
    match parse_string_x(s, n, j1) {
        None => None,
        Some(p) => {
            let key = p.0;
            let k1 = p.1;
            if !(j1 < k1 && k1 <= n) {
                return None;
            }
            let k2 = skip_ws_x(s, n, k1);
            if k2 >= n {
                return None;
            }
            if s.get_char(k2) != ':' {
                return None;
            }
            let v0 = skip_ws_x(s, n, k2 + 1);
            if chars_eq_str(&key, "path") {
                match parse_string_x(s, n, v0) {
                    Some(q) => {
                        if v0 < q.1 && q.1 <= n {
                            file_fields_x(s, n, q.1, false, FileAcc { path: Some(q.0), ..acc })
                        } else {
                            None
                        }
                    },
                    None => None,
                }
            } else if chars_eq_str(&key, "is_directory") {
                if lit_true_x(s, n, v0) {
                    file_fields_x(s, n, v0 + 4, false, FileAcc { is_directory: Some(true), ..acc })
                } else if lit_false_x(s, n, v0) {
                    file_fields_x(s, n, v0 + 5, false, FileAcc { is_directory: Some(false), ..acc })
                } else {
                    None
                }
            } else if chars_eq_str(&key, "size") {
                if lit_null_x(s, n, v0) {
                    file_fields_x(s, n, v0 + 4, false, FileAcc { size: Some(None), ..acc })
                } else {
                    match parse_usize_x(s, n, v0) {
                        Some(q) => {
                            if v0 < q.1 && q.1 <= n {
                                file_fields_x(
                                    s,
                                    n,
                                    q.1,
                                    false,
                                    FileAcc { size: Some(Some(q.0)), ..acc },
                                )
                            } else {
                                None
                            }
                        },
                        None => None,
                    }
                }
            } else if chars_eq_str(&key, "updated_at") {
                match parse_string_x(s, n, v0) {
                    Some(q) => {
                        if v0 < q.1 && q.1 <= n {
                            file_fields_x(
                                s,
                                n,
                                q.1,
                                false,
                                FileAcc { updated_at: Some(q.0), ..acc },
                            )
                        } else {
                            None
                        }
                    },
                    None => None,
                }
            } else if chars_eq_str(&key, "sha1_hash") {
                if lit_null_x(s, n, v0) {
                    file_fields_x(s, n, v0 + 4, false, FileAcc { sha1_hash: Some(None), ..acc })
                } else {
                    match parse_string_x(s, n, v0) {
                        Some(q) => {
                            if v0 < q.1 && q.1 <= n {
                                file_fields_x(
                                    s,
                                    n,
                                    q.1,
                                    false,
                                    FileAcc { sha1_hash: Some(Some(q.0)), ..acc },
                                )
                            } else {
                                None
                            }
                        },
                        None => None,
                    }
                }
            } else {
                match skip_value_x(s, n, v0) {
                    Some(k) => {
                        if v0 < k && k <= n {
                            file_fields_x(s, n, k, false, acc)
                        } else {
                            None
                        }
                    },
                    None => None,
                }
            }
        },
    }
}

pub(crate) open spec fn rel_file(g: Option<(FileV, int)>, r: Option<(File, usize)>, n: usize) -> bool {
    match g {
        None => r is None,
        Some(p) => r matches Some(q) && q.0@ == p.0 && q.1 as int == p.1 && q.1 <= n,
    }
}

pub(crate) fn parse_file_x(s: &str, n: usize, i: usize) -> (r: Option<(File, usize)>)
    requires
        n == s@.len(),
        i <= n,
    ensures
        rel_file(parse_file(s@, i as int), r, n),
{
    proof {
        reveal(parse_file);
    }
    if !(i < n && s.get_char(i) == '{') {
        return None;
    }
    let start = FileAcc {
        path: None,
        is_directory: None,
        size: None,
        updated_at: None,
        sha1_hash: None,
    };
    match file_fields_x(s, n, i + 1, true, start) {
        None => None,
        Some((a, k)) => {
            let FileAcc { path, is_directory, size, updated_at, sha1_hash } = a;
            match (path, is_directory, updated_at) {
                (Some(pv), Some(d), Some(uv)) => {
                    let fsize: Option<usize> = if d {
                        None
                    } else {
                        match size {
                            Some(x) => x,
                            None => None,
                        }
                    };
                    let fsha: Option<String> = if d {
                        None
                    } else {
                        match sha1_hash {
                            Some(Some(v)) => Some(chars_to_string(&v)),
                            Some(None) => None,
                            None => None,
                        }
                    };
                    Some(
                        (
                            File {
                                path: chars_to_string(&pv),
                                is_directory: d,
                                size: fsize,
                                updated_at: chars_to_string(&uv),
                                sha1_hash: fsha,
                            },
                            k,
                        ),
                    )
                },
                _ => None,
            }
        },
    }
}

pub(crate) open spec fn rel_files(
    g: Option<(Seq<FileV>, int)>,
    r: Option<(Vec<File>, usize)>,
    n: usize,
) -> bool {
    match g {
        None => r is None,
        Some(p) => r matches Some(q) && files_rep(q.0@) == p.0 && q.1 as int == p.1 && q.1 <= n,
    }
}

pub(crate) fn files_elems_x(s: &str, n: usize, i: usize, first: bool, acc: Vec<File>) -> (r: Option<
    (Vec<File>, usize),
>)
    requires
        n == s@.len(),
        i <= n,
    ensures
        rel_files(files_elems(s@, i as int, first, files_rep(acc@)), r, n),
    decreases n - i,
{
    proof {
        reveal(files_elems);
    }
    let j = skip_ws_x(s, n, i);
    if j >= n {
        return None;
    }
    let cj = s.get_char(j);
    if cj == ']' {
        return Some((acc, j + 1));
    }
    if first {
        match parse_file_x(s, n, j) {
            Some((f, k)) => {
                if j < k && k <= n {
                    let mut a = acc;
                    let ghost old_rep = files_rep(a@);
                    a.push(f);
                    proof {
                        assert(files_rep(a@) =~= old_rep.push(f@));
                    }
                    files_elems_x(s, n, k, false, a)
                } else {
                    None
                }
            },
            None => None,
        }
    } else if cj == ',' {
        let j2 = skip_ws_x(s, n, j + 1);
        match parse_file_x(s, n, j2) {
            Some((f, k)) => {
                if j2 < k && k <= n {
                    let mut a = acc;
                    let ghost old_rep = files_rep(a@);
                    a.push(f);
                    proof {
                        assert(files_rep(a@) =~= old_rep.push(f@));
                    }
                    files_elems_x(s, n, k, false, a)
                } else {
                    None
                }
            },
            None => None,
        }
    } else {
        None
    }
}

#[verifier::rlimit(100)]
#[verifier::spinoff_prover]
pub(crate) fn list_fields_x(s: &str, n: usize, i: usize, first: bool, acc: Option<Vec<File>>) -> (r:
    Option<(Option<Vec<File>>, usize)>)
    requires
        n == s@.len(),
        i <= n,
    ensures
        match list_fields(
            s@,
            i as int,
            first,
            match acc {
                Some(v) => Some(files_rep(v@)),
                None => None,
            },
        ) {
            None => r is None,
            Some(p) => r matches Some(q) && (match q.0 {
                Some(v) => p.0 matches Some(a2) && files_rep(v@) == a2,
                None => p.0 is None,
            }) && q.1 as int == p.1 && q.1 <= n,
        },
    decreases n - i,
{
    proof {
        reveal(list_fields);
    }
    let j = skip_ws_x(s, n, i);
    if j >= n {
        return None;
    }
    let cj = s.get_char(j);
    if cj == '}' {
        return Some((acc, j + 1));
    }
    let j1: usize = if first {
        j
    } else {
        if cj != ',' {
            return None;
        }
        skip_ws_x(s, n, j + 1)
    };
    if j1 >= n {
        return None;
    }
    match parse_string_x(s, n, j1) {
        None => None,
        Some(p) => {
            let key = p.0;
            let k1 = p.1;
            if !(j1 < k1 && k1 <= n) {
                return None;
            }
            let k2 = skip_ws_x(s, n, k1);
            if k2 >= n {
                return None;
            }
            if s.get_char(k2) != ':' {
                return None;
            }
            let v0 = skip_ws_x(s, n, k2 + 1);
            if chars_eq_str(&key, "files") {
                if !(v0 < n && s.get_char(v0) == '[') {
                    return None;
                }
                proof {
                    assert(files_rep(Seq::<File>::empty()) =~= Seq::<FileV>::empty());
                }
                match files_elems_x(s, n, v0 + 1, true, Vec::new()) {
                    Some((fs, k)) => {
                        if v0 < k && k <= n {
                            list_fields_x(s, n, k, false, Some(fs))
                        } else {
                            None
                        }
                    },
                    None => None,
                }
            } else {
                match skip_value_x(s, n, v0) {
                    Some(k) => {
                        if v0 < k && k <= n {
                            list_fields_x(s, n, k, false, acc)
                        } else {
                            None
                        }
                    },
                    None => None,
                }
            }
        },
    }
}

pub(crate) fn message_fields_x(s: &str, n: usize, i: usize, first: bool, acc: Option<Vec<char>>) -> (r:
    Option<(Option<Vec<char>>, usize)>)
    requires
        n == s@.len(),
        i <= n,
    ensures
        match message_fields(
            s@,
            i as int,
            first,
            match acc {
                Some(v) => Some(v@),
                None => None,
            },
        ) {
            None => r is None,
            Some(p) => r matches Some(q) && (match q.0 {
                Some(v) => p.0 matches Some(a2) && v@ == a2,
                None => p.0 is None,
            }) && q.1 as int == p.1 && q.1 <= n,
        },
    decreases n - i,
{
    proof {
        reveal(message_fields);
    }
    let j = skip_ws_x(s, n, i);
    if j >= n {
        return None;
    }
    let cj = s.get_char(j);
    if cj == '}' {
        return Some((acc, j + 1));
    }
    let j1: usize = if first {
        j
    } else {
        if cj != ',' {
            return None;
        }
        skip_ws_x(s, n, j + 1)
    };
    if j1 >= n {
        return None;
    }
    match parse_string_x(s, n, j1) {
        None => None,
        Some(p) => {
            let key = p.0;
            let k1 = p.1;
            if !(j1 < k1 && k1 <= n) {
                return None;
            }
            let k2 = skip_ws_x(s, n, k1);
            if k2 >= n {
                return None;
            }
            if s.get_char(k2) != ':' {
                return None;
            }
            let v0 = skip_ws_x(s, n, k2 + 1);
            if chars_eq_str(&key, "message") {
                match parse_string_x(s, n, v0) {
                    Some(q) => {
                        if v0 < q.1 && q.1 <= n {
                            message_fields_x(s, n, q.1, false, Some(q.0))
                        } else {
                            None
                        }
                    },
                    None => None,
                }
            } else {
                match skip_value_x(s, n, v0) {
                    Some(k) => {
                        if v0 < k && k <= n {
                            message_fields_x(s, n, k, false, acc)
                        } else {
                            None
                        }
                    },
                    None => None,
                }
            }
        },
    }
}

/// Decodes a listing body, or reports that it does not have the expected
/// shape.  The entries come back exactly as the body orders them.
pub fn decode_list_body(body: &str) -> (r: Option<Vec<File>>)
    ensures
        match parse_list_body(body@) {
            None => r is None,
            Some(fs) => r matches Some(v) && files_rep(v@) == fs,
        },
        r matches Some(v) ==> forall|t: int| 0 <= t < v@.len() ==> (#[trigger] v@[t]).wf(),
{
    proof {
        lemma_parse_list_body_wf(body@);
    }
    let n = body.unicode_len();
    let j = skip_ws_x(body, n, 0);
    if !(j < n && body.get_char(j) == '{') {
        return None;
    }
    match list_fields_x(body, n, j + 1, true, None) {
        None => None,
        Some((acc, k)) => {
            match acc {
                Some(fs) => {
                    let e = skip_ws_x(body, n, k);
                    if e == n {
                        proof {
                            let gfs = parse_list_body(body@).unwrap();
                            assert(all_wf(gfs));
                            assert forall|t: int| 0 <= t < fs@.len() implies (
                            #[trigger] fs@[t]).wf() by {
                                assert(files_rep(fs@)[t] == fs@[t]@);
                                assert(gfs[t].wf());
                            };
                        }
                        Some(fs)
                    } else {
                        None
                    }
                },
                None => None,
            }
        },
    }
}

/// The message carried by an error body, or the empty string where the
/// body cannot be read as one.
pub fn decode_message(body: &str) -> (m: String)
    ensures
        m@ == message_text(body@),
{
    let n = body.unicode_len();
    let j = skip_ws_x(body, n, 0);
    if !(j < n && body.get_char(j) == '{') {
        return String::new();
    }
    match message_fields_x(body, n, j + 1, true, None) {
        None => String::new(),
        Some((acc, k)) => {
            match acc {
                Some(mv) => {
                    let e = skip_ws_x(body, n, k);
                    if e == n {
                        chars_to_string(&mv)
                    } else {
                        String::new()
                    }
                },
                None => String::new(),
            }
        },
    }
}

} // verus!
