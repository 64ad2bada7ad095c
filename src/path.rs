//! Sub-path resolution against a location root, and the path texts that the
//! catalog keys its records by.
use vstd::prelude::*;
use vstd::string::StrSliceExecFns;
use vstd::string::StringExecFns;

verus! {

/// Applies one path component to a stack of resolved directory names:
/// empty components and `.` change nothing, `..` climbs one level (and fails
/// at the root), any other name descends.
pub open spec fn push_component(stack: Option<Seq<Seq<char>>>, comp: Seq<char>) -> Option<
    Seq<Seq<char>>,
> {
    match stack {
        None => None,
        Some(st) => if comp.len() == 0 || comp == seq!['.'] {
            Some(st)
        } else if comp == seq!['.', '.'] {
            if st.len() == 0 {
                None
            } else {
                Some(st.drop_last())
            }
        } else {
            Some(st.push(comp))
        },
    }
}

/// The state after reading the first `n` characters of `s`: the resolved
/// directories so far (`None` once the path escaped the root) and the text of
/// the component being read.
pub open spec fn scan_path(s: Seq<char>, n: nat) -> (Option<Seq<Seq<char>>>, Seq<char>)
    decreases n,
{
    if n == 0 || n > s.len() {
        (Some(Seq::empty()), Seq::empty())
    } else {
        let prev = scan_path(s, (n - 1) as nat);
        if s[n - 1] == '/' {
            (push_component(prev.0, prev.1), Seq::empty())
        } else {
            (prev.0, prev.1.push(s[n - 1]))
        }
    }
}

/// The directories that a relative sub-path names below the root, or `None`
/// when it climbs out of the root. A leading `/` stands for the root itself.
pub open spec fn resolve_components(s: Seq<char>) -> Option<Seq<Seq<char>>> {
    let end = scan_path(s, s.len());
    push_component(end.0, end.1)
}

/// `/a/b/` for the directories `a`, `b`: the materialized path that the
/// children of that directory carry in the catalog.
pub open spec fn children_prefix(comps: Seq<Seq<char>>) -> Seq<char>
    decreases comps.len(),
{
    if comps.len() == 0 {
        seq!['/']
    } else {
        children_prefix(comps.drop_last()) + comps.last() + seq!['/']
    }
}

pub open spec fn is_prefix(p: Seq<char>, s: Seq<char>) -> bool {
    p.len() <= s.len() && s.subrange(0, p.len() as int) == p
}

/// A record's path relative to the root: its materialized path without the
/// leading `/`, followed by its name.
pub open spec fn relative_path(materialized_path: Seq<char>, name: Seq<char>) -> Seq<char> {
    if materialized_path.len() > 0 && materialized_path[0] == '/' {
        materialized_path.skip(1) + name
    } else {
        materialized_path + name
    }
}

/// Joins a relative path onto a root, with one separator between them.
pub open spec fn join_path(root: Seq<char>, rel: Seq<char>) -> Seq<char> {
    if root.len() == 0 || root.last() == '/' {
        root + rel
    } else {
        root + seq!['/'] + rel
    }
}

pub open spec fn strings_view(v: Seq<String>) -> Seq<Seq<char>> {
    v.map_values(|c: String| c@)
}

proof fn lemma_scan_stays_failed(s: Seq<char>, m: nat, n: nat)
    requires
        m <= n <= s.len(),
        scan_path(s, m).0 is None,
    ensures
        scan_path(s, n).0 is None,
    decreases n - m,
{
    if m < n {
        lemma_scan_stays_failed(s, m, (n - 1) as nat);
    }
}

fn push_component_exec(stack: &mut Vec<String>, comp: String) -> (ok: bool)
    ensures
        push_component(Some(strings_view(old(stack)@)), comp@) == if ok {
            Some(strings_view(final(stack)@))
        } else {
            None::<Seq<Seq<char>>>
        },
{
    let len = comp.as_str().unicode_len();
    if len == 0 {
        true
    } else if len == 1 && comp.as_str().get_char(0) == '.' {
        assert(comp@ =~= seq!['.']);
        true
    } else if len == 2 && comp.as_str().get_char(0) == '.' && comp.as_str().get_char(1) == '.' {
        assert(comp@ =~= seq!['.', '.']);
        if stack.len() == 0 {
            false
        } else {
            let _ = stack.pop();
            assert(strings_view(stack@) =~= strings_view(old(stack)@).drop_last());
            true
        }
    } else {
        assert(comp@ != seq!['.']) by {
            if comp@ == seq!['.'] {
                assert(comp@[0] == '.');
            }
        }
        assert(comp@ != seq!['.', '.']) by {
            if comp@ == seq!['.', '.'] {
                assert(comp@[0] == '.' && comp@[1] == '.');
            }
        }
        stack.push(comp);
        assert(strings_view(stack@) =~= strings_view(old(stack)@).push(comp@));
        true
    }
}

/// Resolves a sub-path into the directory names it denotes below the root;
/// `None` when it climbs out of the root.
pub fn resolve_sub_path(s: &str) -> (r: Option<Vec<String>>)
    ensures
        match r {
            None => resolve_components(s@) is None,
            Some(v) => resolve_components(s@) == Some(strings_view(v@)),
        },
{
    let n = s.unicode_len();
    let mut stack: Vec<String> = Vec::new();
    let mut start: usize = 0;
    let mut i: usize = 0;
    assert(strings_view(stack@) =~= Seq::<Seq<char>>::empty());
    assert(s@.subrange(0, 0) =~= Seq::<char>::empty());
    while i < n
        invariant
            n == s@.len(),
            start <= i <= n,
            scan_path(s@, i as nat) == (Some(strings_view(stack@)), s@.subrange(
                start as int,
                i as int,
            )),
        decreases n - i,
    {
        let c = s.get_char(i);
        if c == '/' {
            let comp = String::from_str(s.substring_char(start, i));
            let ok = push_component_exec(&mut stack, comp);
            if !ok {
                proof {
                    lemma_scan_stays_failed(s@, (i + 1) as nat, n as nat);
                }
                return None;
            }
            start = i + 1;
            i = i + 1;
            assert(s@.subrange(start as int, i as int) =~= Seq::<char>::empty());
        } else {
            assert(s@.subrange(start as int, i + 1) =~= s@.subrange(start as int, i as int).push(
                c,
            ));
            i = i + 1;
        }
    }
    let last = String::from_str(s.substring_char(start, n));
    if push_component_exec(&mut stack, last) {
        Some(stack)
    } else {
        None
    }
}

/// Builds `/a/b/` from the directory names `a`, `b`.
pub fn build_children_prefix(comps: &Vec<String>) -> (r: String)
    ensures
        r@ == children_prefix(strings_view(comps@)),
{
    let mut out = String::from_str("/");
    proof {
        reveal_strlit("/");
        assert(strings_view(comps@).take(0) =~= Seq::<Seq<char>>::empty());
    }
    let mut j: usize = 0;
    while j < comps.len()
        invariant
            j <= comps.len(),
            out@ == children_prefix(strings_view(comps@).take(j as int)),
        decreases comps.len() - j,
    {
        out.append(comps[j].as_str());
        out.append("/");
        proof {
            reveal_strlit("/");
            let t = strings_view(comps@).take(j + 1);
            assert(t.drop_last() =~= strings_view(comps@).take(j as int));
            assert(t.last() == comps@[j as int]@);
        }
        j = j + 1;
    }
    assert(strings_view(comps@).take(comps.len() as int) =~= strings_view(comps@));
    out
}

/// Whether `p` is a prefix of `s`.
pub fn starts_with(s: &String, p: &String) -> (r: bool)
    ensures
        r == is_prefix(p@, s@),
{
    let sl = s.as_str().unicode_len();
    let pl = p.as_str().unicode_len();
    if pl > sl {
        false
    } else {
        let head = String::from_str(s.as_str().substring_char(0, pl));
        head == *p
    }
}

/// The absolute path of a record: the root joined with its relative path.
pub fn full_path(root: &String, materialized_path: &String, name: &String) -> (r: String)
    ensures
        r@ == join_path(root@, relative_path(materialized_path@, name@)),
{
    let rl = root.as_str().unicode_len();
    let mut out = root.clone();
    if !(rl == 0 || root.as_str().get_char(rl - 1) == '/') {
        out.append("/");
        proof {
            reveal_strlit("/");
        }
    }
    let ml = materialized_path.as_str().unicode_len();
    if ml > 0 && materialized_path.as_str().get_char(0) == '/' {
        out.append(materialized_path.as_str().substring_char(1, ml));
    } else {
        out.append(materialized_path.as_str());
    }
    out.append(name.as_str());
    assert(out@ =~= join_path(root@, relative_path(materialized_path@, name@)));
    out
}

} // verus!
