//! Small verified string utilities: suffix extraction used by the asset
//! naming convention and filename handling.

use vstd::prelude::*;

verus! {

/// Everything after the last occurrence of `c`; the whole sequence when `c`
/// does not occur.
pub open spec fn after_last(s: Seq<char>, c: char) -> Seq<char>
    decreases s.len(),
{
    if s.len() == 0 {
        s
    } else if s.last() == c {
        Seq::empty()
    } else {
        after_last(s.drop_last(), c).push(s.last())
    }
}

/// The extension of a filename: the suffix after the last `'.'`, provided
/// that dot is not the first character; `None` otherwise.
pub open spec fn extension_of(f: Seq<char>) -> Option<Seq<char>>
    decreases f.len(),
{
    if f.len() == 0 {
        None
    } else if f.last() == '.' {
        if f.len() >= 2 {
            Some(Seq::empty())
        } else {
            None
        }
    } else {
        match extension_of(f.drop_last()) {
            Some(e) => Some(e.push(f.last())),
            None => None,
        }
    }
}

/// What stands after the last occurrence of `c` holds no `c`.
pub proof fn lemma_after_last_excludes(s: Seq<char>, c: char)
    ensures
        forall|i: int| 0 <= i < after_last(s, c).len() ==> after_last(s, c)[i] != c,
    decreases s.len(),
{
    if s.len() == 0 {
    } else if s.last() == c {
    } else {
        lemma_after_last_excludes(s.drop_last(), c);
        let prefix = after_last(s.drop_last(), c);
        assert forall|i: int| 0 <= i < after_last(s, c).len() implies after_last(s, c)[i] != c by {
            if i < prefix.len() {
                assert(after_last(s, c)[i] == prefix[i]);
            } else {
                assert(after_last(s, c)[i] == s.last());
            }
        }
    }
}

/// An extension holds no dot: it is what stands after the last one.
pub proof fn lemma_extension_of_no_dot(f: Seq<char>)
    ensures
        extension_of(f) matches Some(e) ==> forall|i: int| 0 <= i < e.len() ==> e[i] != '.',
    decreases f.len(),
{
    if f.len() == 0 {
    } else if f.last() == '.' {
    } else {
        lemma_extension_of_no_dot(f.drop_last());
    }
}

/// An extension is drawn from the filename's characters: a character absent
/// from the filename is absent from its extension.
pub proof fn lemma_extension_of_keeps_missing(f: Seq<char>, c: char)
    requires
        forall|j: int| 0 <= j < f.len() ==> f[j] != c,
    ensures
        extension_of(f) matches Some(e) ==> forall|i: int| 0 <= i < e.len() ==> e[i] != c,
    decreases f.len(),
{
    if f.len() == 0 {
    } else if f.last() == '.' {
    } else {
        assert(forall|j: int| 0 <= j < f.drop_last().len() ==> f.drop_last()[j] != c);
        lemma_extension_of_keeps_missing(f.drop_last(), c);
        assert(f[f.len() - 1] != c);
    }
}

proof fn lemma_after_last_absent(s: Seq<char>, c: char)
    requires
        !s.contains(c),
    ensures
        after_last(s, c) == s,
    decreases s.len(),
{
    if s.len() > 0 {
        assert(s.contains(s.last())) by {
            assert(s[s.len() - 1] == s.last());
        }
        assert(!s.drop_last().contains(c)) by {
            if s.drop_last().contains(c) {
                let i = choose|i: int| 0 <= i < s.drop_last().len() && s.drop_last()[i] == c;
                assert(s[i] == c);
            }
        }
        lemma_after_last_absent(s.drop_last(), c);
        assert(after_last(s, c) =~= s);
    }
}

proof fn lemma_after_last_at(s: Seq<char>, c: char, p: int)
    requires
        0 <= p < s.len(),
        s[p] == c,
        forall|j: int| p < j < s.len() ==> s[j] != c,
    ensures
        after_last(s, c) == s.subrange(p + 1, s.len() as int),
    decreases s.len(),
{
    if p == s.len() - 1 {
        assert(s.last() == c);
        assert(after_last(s, c) =~= s.subrange(p + 1, s.len() as int));
    } else {
        assert(s.last() != c);
        lemma_after_last_at(s.drop_last(), c, p);
        assert(after_last(s, c) =~= s.subrange(p + 1, s.len() as int));
    }
}

proof fn lemma_extension_absent(f: Seq<char>, c: char)
    requires
        !f.contains('.'),
    ensures
        extension_of(f) is None,
    decreases f.len(),
{
    if f.len() > 0 {
        assert(f.contains(f.last())) by {
            assert(f[f.len() - 1] == f.last());
        }
        assert(!f.drop_last().contains('.')) by {
            if f.drop_last().contains('.') {
                let i = choose|i: int| 0 <= i < f.drop_last().len() && f.drop_last()[i] == '.';
                assert(f[i] == '.');
            }
        }
        lemma_extension_absent(f.drop_last(), c);
    }
}

proof fn lemma_extension_at(f: Seq<char>, p: int)
    requires
        0 <= p < f.len(),
        f[p] == '.',
        forall|j: int| p < j < f.len() ==> f[j] != '.',
    ensures
        p == 0 ==> extension_of(f) is None,
        p > 0 ==> extension_of(f) == Some(f.subrange(p + 1, f.len() as int)),
    decreases f.len(),
{
    if p == f.len() - 1 {
        assert(f.last() == '.');
        if p > 0 {
            assert(f.subrange(p + 1, f.len() as int) =~= Seq::<char>::empty());
        }
    } else {
        assert(f.last() != '.');
        lemma_extension_at(f.drop_last(), p);
        if p > 0 {
            assert(extension_of(f.drop_last()) == Some(
                f.drop_last().subrange(p + 1, f.len() - 1),
            ));
            assert(f.drop_last().subrange(p + 1, f.len() - 1).push(f.last()) =~= f.subrange(
                p + 1,
                f.len() as int,
            ));
        }
    }
}

/// The index of the last occurrence of `c` in `s`, if any.
pub fn rfind_char(s: &str, c: char) -> (r: Option<usize>)
    ensures
        match r {
            Some(i) => i < s@.len() && s@[i as int] == c && forall|j: int|
                i < j < s@.len() ==> s@[j] != c,
            None => !s@.contains(c),
        },
{
    let n = s.unicode_len();
    let mut i = n;
    while i > 0
        invariant
            i <= n,
            n == s@.len(),
            forall|j: int| i <= j < n ==> s@[j] != c,
        decreases i,
    {
        i = i - 1;
        if s.get_char(i) == c {
            return Some(i);
        }
    }
    proof {
        if s@.contains(c) {
            let j = choose|j: int| 0 <= j < s@.len() && s@[j] == c;
            assert(s@[j] != c);
        }
    }
    None
}

/// The component after the last `'/'` of a path, or the whole path when it
/// holds no `'/'`; `None` when that component is empty.
pub fn filename_component(path: &str) -> (r: Option<String>)
    ensures
        match r {
            Some(name) => name@ == after_last(path@, '/') && name@.len() > 0,
            None => after_last(path@, '/').len() == 0,
        },
{
    let n = path.unicode_len();
    match rfind_char(path, '/') {
        Some(p) => {
            proof {
                lemma_after_last_at(path@, '/', p as int);
            }
            if p + 1 == n {
                proof {
                    assert(path@.subrange(p + 1, n as int) =~= Seq::<char>::empty());
                }
                None
            } else {
                let tail = path.substring_char(p + 1, n);
                Some(String::from_str(tail))
            }
        },
        None => {
            proof {
                lemma_after_last_absent(path@, '/');
            }
            if n == 0 {
                None
            } else {
                Some(String::from_str(path))
            }
        },
    }
}

/// The extension of `name` per [`extension_of`], as an owned string.
pub fn extension_component(name: &str) -> (r: Option<String>)
    ensures
        match r {
            Some(e) => extension_of(name@) == Some(e@),
            None => extension_of(name@) is None,
        },
{
    let n = name.unicode_len();
    match rfind_char(name, '.') {
        Some(p) => {
            proof {
                lemma_extension_at(name@, p as int);
            }
            if p == 0 {
                None
            } else {
                let tail = name.substring_char(p + 1, n);
                Some(String::from_str(tail))
            }
        },
        None => {
            proof {
                lemma_extension_absent(name@, '.');
            }
            None
        },
    }
}

} // verus!
