//! What goes into the archive of a generated project: for each entry of the
//! project's folder, whether it is archived, and under which name.

use vstd::prelude::*;
use crate::text::{chars_of, string_from_chars};

verus! {

/// Why a project could not be compressed.
#[derive(Debug)]
pub enum CompressingError {
    /// The archive could not be written, with the archiver's message.
    Zipping(String),
    /// A file could not be read or created, with the system's message.
    IoError(String),
    /// A file name could not be read as text; the path.
    StringConversion(String),
}

/// The value of a `CompressingError`.
pub enum CompressingErrorView {
    Zipping(Seq<char>),
    IoError(Seq<char>),
    StringConversion(Seq<char>),
}

impl View for CompressingError {
    type V = CompressingErrorView;

    open spec fn view(&self) -> CompressingErrorView {
        match self {
            CompressingError::Zipping(m) => CompressingErrorView::Zipping(m@),
            CompressingError::IoError(m) => CompressingErrorView::IoError(m@),
            CompressingError::StringConversion(p) => CompressingErrorView::StringConversion(p@),
        }
    }
}

/// What to do with one entry of the folder being archived.
#[derive(Debug)]
pub enum ZipEntry {
    /// Leave it out: it is an archive itself.
    Skip,
    /// The folder itself: nothing to add.
    Root,
    /// Add the file under this name.
    File(String),
    /// Add the folder under this name.
    Directory(String),
}

/// The value of a `ZipEntry`.
pub enum ZipEntryView {
    Skip,
    Root,
    File(Seq<char>),
    Directory(Seq<char>),
}

impl View for ZipEntry {
    type V = ZipEntryView;

    open spec fn view(&self) -> ZipEntryView {
        match self {
            ZipEntry::Skip => ZipEntryView::Skip,
            ZipEntry::Root => ZipEntryView::Root,
            ZipEntry::File(n) => ZipEntryView::File(n@),
            ZipEntry::Directory(n) => ZipEntryView::Directory(n@),
        }
    }
}

/// The last component of a path: what follows its last `/`.
pub open spec fn file_name(path: Seq<char>) -> Seq<char>
    decreases path.len(),
{
    if path.len() == 0 || path.last() == '/' {
        Seq::empty()
    } else {
        file_name(path.drop_last()).push(path.last())
    }
}

/// The extension of a file name as `Path::extension` gives it: what follows
/// its last `.`, where that `.` is not the name's first character; `None`
/// where there is no such `.`.
pub open spec fn extension_of(name: Seq<char>) -> Option<Seq<char>>
    decreases name.len(),
{
    if name.len() <= 1 {
        None
    } else if name.last() == '.' {
        Some(Seq::empty())
    } else {
        match extension_of(name.drop_last()) {
            Some(e) => Some(e.push(name.last())),
            None => None,
        }
    }
}

/// Whether `path` is the folder `prefix` or lies inside it, as the folder
/// walk yields it: `prefix` itself, or `prefix`, `/`, and a relative rest
/// that does not end in `/`.
pub open spec fn walked_from(prefix: Seq<char>, path: Seq<char>) -> bool {
    ||| path == prefix
    ||| (path.len() > prefix.len() + 1 && path.take(prefix.len() as int) == prefix && path[prefix.len() as int]
        == '/' && path[prefix.len() + 1int] != '/' && path.last() != '/')
}

/// Whether `path` is the folder `prefix` or lies inside it as the folder
/// walk yields it.
pub fn walked_from_path(prefix: &str, path: &str) -> (r: bool)
    ensures
        r == walked_from(prefix@, path@),
{
    let p = chars_of(prefix);
    let c = chars_of(path);
    let n = p.len();
    if c.len() < n {
        assert(path@.len() < prefix@.len());
        return false;
    }
    let mut i: usize = 0;
    while i < n
        invariant
            p@ == prefix@,
            c@ == path@,
            n == p@.len(),
            n <= c@.len(),
            i <= n,
            c@.take(i as int) == p@.take(i as int),
        decreases n - i,
    {
        if c[i] != p[i] {
            assert(c@.take(n as int)[i as int] != p@[i as int]);
            assert(c@.take(n as int) != p@);
            assert(c@.len() != p@.len() ==> c@ != p@);
            assert(c@.take(n as int) == c@ ==> c@.take(n as int)[i as int] == c@[i as int]);
            return false;
        }
        assert(c@.take(i + 1) =~= c@.take(i as int).push(c@[i as int]));
        assert(p@.take(i + 1) =~= p@.take(i as int).push(p@[i as int]));
        i = i + 1;
    }
    assert(p@.take(n as int) =~= p@);
    if c.len() == n {
        assert(c@ =~= p@);
        return true;
    }
    c.len() > n + 1 && c[n] == '/' && c[n + 1] != '/' && c[c.len() - 1] != '/'
}

/// The name of a walked entry inside the archive: its path relative to the
/// folder.
pub open spec fn relative_name(prefix: Seq<char>, path: Seq<char>) -> Seq<char> {
    if path == prefix {
        Seq::empty()
    } else {
        path.skip(prefix.len() + 1int)
    }
}

/// What archiving does with the entry at `path` of the folder `prefix`: a
/// file without an extension is an error; a file with the extension `zip`
/// is left out; any other file is added under its relative name; the folder
/// itself adds nothing, and any folder inside it is added under its relative
/// name.
pub open spec fn zip_entry_for(prefix: Seq<char>, path: Seq<char>, is_file: bool) -> Result<ZipEntryView, CompressingErrorView> {
    if is_file && extension_of(file_name(path)) is None {
        Err(CompressingErrorView::StringConversion(path))
    } else if is_file && extension_of(file_name(path)) == Some("zip"@) {
        Ok(ZipEntryView::Skip)
    } else if is_file {
        Ok(ZipEntryView::File(relative_name(prefix, path)))
    } else if path == prefix {
        Ok(ZipEntryView::Root)
    } else {
        Ok(ZipEntryView::Directory(relative_name(prefix, path)))
    }
}

/// What goes into the archive: every file of the folder whose name has an
/// extension other than `zip` is added, under its name relative to the
/// folder, which put after the folder and a `/` gives the file's path back;
/// a file with the extension `zip` is left out; a file without an extension
/// is an error naming its path.
pub proof fn lemma_archived_files(prefix: Seq<char>, path: Seq<char>)
    ensures
        extension_of(file_name(path)) matches Some(e) && e != "zip"@ ==> zip_entry_for(prefix, path, true)
            == Ok::<ZipEntryView, CompressingErrorView>(ZipEntryView::File(relative_name(prefix, path))),
        extension_of(file_name(path)) == Some("zip"@) ==> zip_entry_for(prefix, path, true) == Ok::<
            ZipEntryView,
            CompressingErrorView,
        >(ZipEntryView::Skip),
        extension_of(file_name(path)) is None ==> zip_entry_for(prefix, path, true) == Err::<
            ZipEntryView,
            CompressingErrorView,
        >(CompressingErrorView::StringConversion(path)),
        walked_from(prefix, path) && path != prefix ==> prefix + seq!['/'] + relative_name(prefix, path) == path,
{
    if walked_from(prefix, path) && path != prefix {
        assert(prefix + seq!['/'] + path.skip(prefix.len() + 1int) =~= path);
    }
}

/// The view of an entry decision.
pub open spec fn entry_result(r: Result<ZipEntry, CompressingError>) -> Result<ZipEntryView, CompressingErrorView> {
    match r {
        Ok(e) => Ok(e@),
        Err(e) => Err(e@),
    }
}

proof fn lemma_file_name_suffix(path: Seq<char>, i: int)
    requires
        -1 <= i < path.len(),
        i >= 0 ==> path[i] == '/',
        forall|j: int| i < j < path.len() ==> path[j] != '/',
    ensures
        file_name(path) == path.skip(i + 1),
    decreases path.len(),
{
    if path.len() == 0 {
    } else if i == path.len() - 1 {
        assert(path.skip(i + 1) =~= Seq::<char>::empty());
    } else {
        lemma_file_name_suffix(path.drop_last(), i);
        assert(path.drop_last().skip(i + 1).push(path.last()) =~= path.skip(i + 1));
    }
}

/// The extension of a file name.
fn extension(name: &Vec<char>) -> (r: Option<Vec<char>>)
    ensures
        match r {
            Some(e) => extension_of(name@) == Some(e@),
            None => extension_of(name@) is None,
        },
{
    let mut i: usize = name.len();
    proof {
        assert(name@.take(i as int) =~= name@);
        assert(name@.skip(i as int) =~= Seq::<char>::empty());
        match extension_of(name@) {
            Some(e) => {
                assert(e + name@.skip(i as int) =~= e);
            },
            None => {},
        }
    }
    while i > 1
        invariant
            i <= name@.len(),
            forall|j: int| i <= j < name@.len() ==> name@[j] != '.',
            extension_of(name@) == (match extension_of(name@.take(i as int)) {
                Some(e) => Some(e + name@.skip(i as int)),
                None => None::<Seq<char>>,
            }),
        decreases i,
    {
        let ghost t = name@.take(i as int);
        assert(t.drop_last() =~= name@.take(i - 1));
        if name[i - 1] == '.' {
            let mut e: Vec<char> = Vec::new();
            let mut k: usize = i;
            while k < name.len()
                invariant
                    i <= k <= name@.len(),
                    e@ == name@.subrange(i as int, k as int),
                decreases name@.len() - k,
            {
                e.push(name[k]);
                k = k + 1;
            }
            assert(e@ =~= Seq::<char>::empty() + name@.skip(i as int));
            return Some(e);
        }
        proof {
            match extension_of(t.drop_last()) {
                Some(e) => {
                    assert(e.push(t.last()) + name@.skip(i as int) =~= e + name@.skip(i - 1));
                },
                None => {},
            }
        }
        i = i - 1;
    }
    None
}

/// Decides what archiving does with the entry at `path` of the folder
/// `prefix`.
pub fn zip_entry(prefix: &str, path: &str, is_file: bool) -> (r: Result<ZipEntry, CompressingError>)
    requires
        walked_from(prefix@, path@),
    ensures
        entry_result(r) == zip_entry_for(prefix@, path@, is_file),
{
    let cs = chars_of(path);
    let ps = chars_of(prefix);
    let mut start: usize = cs.len();
    while start > 0 && cs[start - 1] != '/'
        invariant
            start <= cs@.len(),
            cs@ == path@,
            forall|j: int| start <= j < cs@.len() ==> cs@[j] != '/',
        decreases start,
    {
        start = start - 1;
    }
    proof {
        lemma_file_name_suffix(path@, start - 1);
    }
    let mut name: Vec<char> = Vec::new();
    let mut k: usize = start;
    while k < cs.len()
        invariant
            start <= k <= cs@.len(),
            name@ == cs@.subrange(start as int, k as int),
        decreases cs@.len() - k,
    {
        name.push(cs[k]);
        k = k + 1;
    }
    assert(name@ =~= file_name(path@));
    if is_file {
        match extension(&name) {
            None => {
                return Err(CompressingError::StringConversion(path.to_owned()));
            },
            Some(e) => {
                proof {
                    reveal_strlit("zip");
                }
                if e.len() == 3 && e[0] == 'z' && e[1] == 'i' && e[2] == 'p' {
                    assert(e@ =~= "zip"@);
                    return Ok(ZipEntry::Skip);
                }
                assert(e@ != "zip"@) by {
                    if e@ == "zip"@ {
                        assert(e@.len() == 3 && e@[0] == 'z' && e@[1] == 'i' && e@[2] == 'p');
                    }
                }
            },
        }
    }
    if cs.len() == ps.len() {
        assert(path@ =~= prefix@) by {
            if path@ != prefix@ {
                assert(path@.len() > prefix@.len() + 1);
            }
        }
        if is_file {
            assert(relative_name(prefix@, path@) =~= Seq::<char>::empty());
            return Ok(ZipEntry::File(String::new()));
        }
        return Ok(ZipEntry::Root);
    }
    let mut rel: Vec<char> = Vec::new();
    let mut m: usize = ps.len() + 1;
    while m < cs.len()
        invariant
            ps@.len() + 1 <= m <= cs@.len(),
            rel@ == cs@.subrange(ps@.len() + 1int, m as int),
        decreases cs@.len() - m,
    {
        rel.push(cs[m]);
        m = m + 1;
    }
    assert(path@ != prefix@);
    assert(rel@ =~= relative_name(prefix@, path@));
    let rel_name = string_from_chars(rel.as_slice());
    if is_file {
        Ok(ZipEntry::File(rel_name))
    } else {
        Ok(ZipEntry::Directory(rel_name))
    }
}

} // verus!
