//! Planning the copy of a directory tree.
use vstd::prelude::*;
use crate::site::{join, join_path, Error};
use crate::text::{chars_of, matches_at, occurs_at, string_from_range};

verus! {

/// The path of `file` relative to the directory `dir`, if it lies under it.
pub open spec fn relative_to(file: Seq<char>, dir: Seq<char>) -> Option<Seq<char>> {
    if dir.len() == 0 {
        Some(file)
    } else if !occurs_at(file, 0, dir) {
        None
    } else if dir.last() == '/' {
        Some(file.subrange(dir.len() as int, file.len() as int))
    } else if file.len() == dir.len() {
        Some(Seq::empty())
    } else if file[dir.len() as int] == '/' {
        Some(file.subrange(dir.len() + 1int, file.len() as int))
    } else {
        None
    }
}

/// The relative path `rel` is the directory `d` or lies inside it.
pub open spec fn in_dir(rel: Seq<char>, d: Seq<char>) -> bool {
    occurs_at(rel, 0, d) && (rel.len() == d.len() || rel[d.len() as int] == '/')
}

/// The copies that mirror `files` (listed under `source`) into `target`:
/// each file paired with its place under `target`, in listing order, except
/// those inside the top-level directory `skip`; `None` when a file does not
/// lie under `source`.
pub open spec fn copy_plan(
    source: Seq<char>,
    target: Seq<char>,
    files: Seq<Seq<char>>,
    skip: Option<Seq<char>>,
) -> Option<Seq<(Seq<char>, Seq<char>)>>
    decreases files.len(),
{
    if files.len() == 0 {
        Some(Seq::empty())
    } else {
        match (copy_plan(source, target, files.drop_last(), skip), relative_to(files.last(), source)) {
            (Some(prev), Some(rel)) => if skip matches Some(d) && in_dir(rel, d) {
                Some(prev)
            } else {
                Some(prev.push((files.last(), join_path(target, rel))))
            },
            _ => None,
        }
    }
}

pub open spec fn strings_view(ss: Seq<String>) -> Seq<Seq<char>> {
    ss.map_values(|s: String| s@)
}

pub open spec fn pairs_view(ps: Seq<(String, String)>) -> Seq<(Seq<char>, Seq<char>)> {
    ps.map_values(|p: (String, String)| (p.0@, p.1@))
}

/// The path of `file` relative to `dir`.
pub fn relative_path(file: &str, dir: &str) -> (r: Option<String>)
    ensures
        match r {
            Some(s) => relative_to(file@, dir@) == Some(s@),
            None => relative_to(file@, dir@) is None,
        },
{
    let f = chars_of(file);
    let d = chars_of(dir);
    if d.len() == 0 {
        return Some(file.to_owned());
    }
    if !matches_at(&f, 0, &d) {
        return None;
    }
    if d[d.len() - 1] == '/' {
        Some(string_from_range(&f, d.len(), f.len()))
    } else if f.len() == d.len() {
        let r = String::new();
        assert(r@ =~= Seq::<char>::empty());
        Some(r)
    } else if f[d.len()] == '/' {
        Some(string_from_range(&f, d.len() + 1, f.len()))
    } else {
        None
    }
}

fn inside_dir(rel: &str, d: &str) -> (r: bool)
    ensures
        r == in_dir(rel@, d@),
{
    let rc = chars_of(rel);
    let dc = chars_of(d);
    matches_at(&rc, 0, &dc) && (rc.len() == dc.len() || rc[dc.len()] == '/')
}

/// Plans the copy of the files listed under `source` to the same places
/// under `target`, leaving out the top-level directory `skip`.
pub fn copy_all_file(source: &str, target: &str, files: &Vec<String>, skip: Option<&str>) -> (r: Result<
    Vec<(String, String)>,
    Error,
>)
    ensures
        match r {
            Ok(ps) => copy_plan(
                source@,
                target@,
                strings_view(files@),
                match skip { Some(d) => Some(d@), None => None },
            ) == Some(pairs_view(ps@)),
            Err(e) => e == Error::NotUnderSource && copy_plan(
                source@,
                target@,
                strings_view(files@),
                match skip { Some(d) => Some(d@), None => None },
            ) is None,
        },
{
    let ghost fv = strings_view(files@);
    let ghost sk = match skip { Some(d) => Some(d@), None => None::<Seq<char>> };
    let mut out: Vec<(String, String)> = Vec::new();
    let mut i: usize = 0;
    while i < files.len()
        invariant
            i <= files@.len(),
            fv == strings_view(files@),
            sk == match skip { Some(d) => Some(d@), None => None::<Seq<char>> },
            copy_plan(source@, target@, fv.subrange(0, i as int), sk) == Some(pairs_view(out@)),
        decreases files@.len() - i,
    {
        let ghost prefix = fv.subrange(0, i as int + 1);
        assert(prefix.drop_last() =~= fv.subrange(0, i as int));
        assert(prefix.last() == files@[i as int]@);
        match relative_path(files[i].as_str(), source) {
            Some(rel) => {
                let skipped = match skip {
                    Some(d) => inside_dir(rel.as_str(), d),
                    None => false,
                };
                if !skipped {
                    let dest = join(target, rel.as_str());
                    out.push((files[i].clone(), dest));
                    assert(pairs_view(out@) =~= pairs_view(out@.drop_last()).push((files@[i as int]@, dest@)));
                }
            },
            None => {
                proof {
                    lemma_plan_fails_on(source@, target@, fv, sk, i as int + 1);
                }
                return Err(Error::NotUnderSource);
            },
        }
        i = i + 1;
    }
    assert(fv.subrange(0, files@.len() as int) =~= fv);
    Ok(out)
}

/// The paths of `files` relative to `dir`, in order; `None` when one does
/// not lie under `dir`.
pub open spec fn relative_all(dir: Seq<char>, files: Seq<Seq<char>>) -> Option<Seq<Seq<char>>>
    decreases files.len(),
{
    if files.len() == 0 {
        Some(Seq::empty())
    } else {
        match (relative_all(dir, files.drop_last()), relative_to(files.last(), dir)) {
            (Some(prev), Some(rel)) => Some(prev.push(rel)),
            _ => None,
        }
    }
}

/// The paths of the listed files relative to the directory they were listed from.
pub fn relative_paths(dir: &str, files: &Vec<String>) -> (r: Result<Vec<String>, Error>)
    ensures
        match r {
            Ok(ps) => relative_all(dir@, strings_view(files@)) == Some(strings_view(ps@)),
            Err(e) => e == Error::NotUnderSource && relative_all(dir@, strings_view(files@)) is None,
        },
{
    let ghost fv = strings_view(files@);
    let mut out: Vec<String> = Vec::new();
    let mut i: usize = 0;
    while i < files.len()
        invariant
            i <= files@.len(),
            fv == strings_view(files@),
            relative_all(dir@, fv.subrange(0, i as int)) == Some(strings_view(out@)),
        decreases files@.len() - i,
    {
        let ghost prefix = fv.subrange(0, i as int + 1);
        assert(prefix.drop_last() =~= fv.subrange(0, i as int));
        match relative_path(files[i].as_str(), dir) {
            Some(rel) => {
                out.push(rel);
                assert(strings_view(out@) =~= strings_view(out@.drop_last()).push(rel@));
            },
            None => {
                proof {
                    lemma_relative_fails_on(dir@, fv, i as int + 1);
                }
                return Err(Error::NotUnderSource);
            },
        }
        i = i + 1;
    }
    assert(fv.subrange(0, files@.len() as int) =~= fv);
    Ok(out)
}

proof fn lemma_relative_fails_on(dir: Seq<char>, files: Seq<Seq<char>>, n: int)
    requires
        0 < n <= files.len(),
        relative_all(dir, files.subrange(0, n)) is None,
    ensures
        relative_all(dir, files) is None,
    decreases files.len() - n,
{
    if n < files.len() {
        assert(files.subrange(0, n + 1).drop_last() =~= files.subrange(0, n));
        lemma_relative_fails_on(dir, files, n + 1);
    } else {
        assert(files.subrange(0, n) =~= files);
    }
}

/// The file is a template: its name has the extension `hbs`.
pub open spec fn is_template(p: Seq<char>) -> bool {
    &&& p.len() >= 5
    &&& p.subrange(p.len() - 4, p.len() as int) == seq!['.', 'h', 'b', 's']
    &&& p[p.len() - 5] != '/'
}

/// The templates among `files` (listed under `layout`), each with its name:
/// its path relative to `layout`; `None` when a template does not lie under `layout`.
pub open spec fn templates_in(layout: Seq<char>, files: Seq<Seq<char>>) -> Option<Seq<(Seq<char>, Seq<char>)>>
    decreases files.len(),
{
    if files.len() == 0 {
        Some(Seq::empty())
    } else {
        let prev = templates_in(layout, files.drop_last());
        if !is_template(files.last()) {
            prev
        } else {
            match (prev, relative_to(files.last(), layout)) {
                (Some(ts), Some(rel)) => Some(ts.push((files.last(), rel))),
                _ => None,
            }
        }
    }
}

fn template_file(p: &str) -> (r: bool)
    ensures
        r == is_template(p@),
{
    let cs = chars_of(p);
    let n = cs.len();
    if n < 5 {
        return false;
    }
    let ext = vec!['.', 'h', 'b', 's'];
    let r = matches_at(&cs, n - 4, &ext) && cs[n - 5] != '/';
    proof {
        assert(ext@ =~= seq!['.', 'h', 'b', 's']);
    }
    r
}

/// The template files found in the layout directory, with the name each is
/// registered under.
pub fn template_names(layout: &str, files: &Vec<String>) -> (r: Result<Vec<(String, String)>, Error>)
    ensures
        match r {
            Ok(ts) => templates_in(layout@, strings_view(files@)) == Some(pairs_view(ts@)),
            Err(e) => e == Error::NotUnderSource && templates_in(layout@, strings_view(files@)) is None,
        },
{
    let ghost fv = strings_view(files@);
    let mut out: Vec<(String, String)> = Vec::new();
    let mut i: usize = 0;
    while i < files.len()
        invariant
            i <= files@.len(),
            fv == strings_view(files@),
            templates_in(layout@, fv.subrange(0, i as int)) == Some(pairs_view(out@)),
        decreases files@.len() - i,
    {
        let ghost prefix = fv.subrange(0, i as int + 1);
        assert(prefix.drop_last() =~= fv.subrange(0, i as int));
        assert(prefix.last() == files@[i as int]@);
        if template_file(files[i].as_str()) {
            match relative_path(files[i].as_str(), layout) {
                Some(name) => {
                    out.push((files[i].clone(), name));
                    assert(pairs_view(out@) =~= pairs_view(out@.drop_last()).push((files@[i as int]@, name@)));
                },
                None => {
                    proof {
                        lemma_templates_fail_on(layout@, fv, i as int + 1);
                    }
                    return Err(Error::NotUnderSource);
                },
            }
        }
        i = i + 1;
    }
    assert(fv.subrange(0, files@.len() as int) =~= fv);
    Ok(out)
}

proof fn lemma_templates_fail_on(layout: Seq<char>, files: Seq<Seq<char>>, n: int)
    requires
        0 < n <= files.len(),
        templates_in(layout, files.subrange(0, n)) is None,
    ensures
        templates_in(layout, files) is None,
    decreases files.len() - n,
{
    if n < files.len() {
        assert(files.subrange(0, n + 1).drop_last() =~= files.subrange(0, n));
        lemma_templates_fail_on(layout, files, n + 1);
    } else {
        assert(files.subrange(0, n) =~= files);
    }
}

proof fn lemma_plan_fails_on(
    source: Seq<char>,
    target: Seq<char>,
    files: Seq<Seq<char>>,
    skip: Option<Seq<char>>,
    n: int,
)
    requires
        0 < n <= files.len(),
        copy_plan(source, target, files.subrange(0, n), skip) is None,
    ensures
        copy_plan(source, target, files, skip) is None,
    decreases files.len() - n,
{
    if n < files.len() {
        assert(files.subrange(0, n + 1).drop_last() =~= files.subrange(0, n));
        lemma_plan_fails_on(source, target, files, skip, n + 1);
    } else {
        assert(files.subrange(0, n) =~= files);
    }
}

} // verus!
