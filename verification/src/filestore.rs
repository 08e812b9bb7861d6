//! Where the node agent keeps the files of the objects it manages:
//! `<base>/<object type>/<object name>/<file>`.
use vstd::prelude::*;
use crate::text::{owned, views};

verus! {

/// The store of object files under a base directory.
#[derive(Debug)]
pub struct FileStore {
    pub base_path: String,
}

/// A path with one more component (`PathBuf::push` on Unix): an absolute component replaces
/// the path; otherwise a `/` separates it from a non-empty path that does not already end in
/// one.
pub open spec fn path_push(base: Seq<char>, part: Seq<char>) -> Seq<char> {
    if part.len() > 0 && part[0] == '/' {
        part
    } else if base.len() > 0 && base.last() != '/' {
        base + "/"@ + part
    } else {
        base + part
    }
}

/// A path with several components pushed in order.
pub open spec fn path_extend(base: Seq<char>, parts: Seq<Seq<char>>) -> Seq<char>
    decreases parts.len(),
{
    if parts.len() == 0 {
        base
    } else {
        path_push(path_extend(base, parts.drop_last()), parts.last())
    }
}

fn push_component(path: &mut String, part: &str)
    ensures
        final(path)@ == path_push(old(path)@, part@),
{
    proof {
        reveal_strlit("/");
    }
    if part.unicode_len() > 0 && part.get_char(0) == '/' {
        *path = owned(part);
    } else {
        let n = path.as_str().unicode_len();
        if n > 0 && path.as_str().get_char(n - 1) != '/' {
            crate::text::push_char(path, '/');
            path.append(part);
            assert(path@ =~= old(path)@ + "/"@ + part@);
        } else {
            path.append(part);
        }
    }
}

impl FileStore {
    pub fn new(base_path: String) -> (res: FileStore)
        ensures
            res.base_path == base_path,
    {
        FileStore { base_path }
    }

    /// The path of the given components under the base directory (see `path_extend`).
    pub fn get_path(&self, parts: &Vec<String>) -> (res: String)
        ensures
            res@ == path_extend(self.base_path@, views(parts@)),
    {
        let mut p = self.base_path.clone();
        let mut i: usize = 0;
        while i < parts.len()
            invariant
                i <= parts@.len(),
                p@ == path_extend(self.base_path@, views(parts@).take(i as int)),
            decreases parts.len() - i,
        {
            proof {
                assert(views(parts@).take(i + 1).drop_last() =~= views(parts@).take(i as int));
                assert(views(parts@).take(i + 1).last() == parts@[i as int]@);
            }
            push_component(&mut p, parts[i].as_str());
            i = i + 1;
        }
        assert(views(parts@).take(parts@.len() as int) =~= views(parts@));
        p
    }

    /// The path of an object's file: `<base>/<object type>/<object name>/<file>`.
    pub fn file_path(&self, object_type: &str, object_name: &str, file_name: &str) -> (res: String)
        ensures
            res@ == self.base_path@ + "/"@ + object_type@ + "/"@ + object_name@ + "/"@ + file_name@,
    {
        let mut s = self.base_path.clone();
        s.append("/");
        s.append(object_type);
        s.append("/");
        s.append(object_name);
        s.append("/");
        s.append(file_name);
        s
    }
}

} // verus!
