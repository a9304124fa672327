//! Node ids. An id is fixed by what it names: `file:<path>` for a file,
//! `fn:<path>::<name>` for a function and `type:<path>::<name>` for a
//! type, where `<path>` is the path of the file that declares it.

use vstd::prelude::*;
use vstd::string::StringExecFns;

verus! {

pub open spec fn file_id_of(path: Seq<char>) -> Seq<char> {
    "file:"@ + path
}

pub open spec fn fn_id_of(path: Seq<char>, name: Seq<char>) -> Seq<char> {
    "fn:"@ + path + "::"@ + name
}

pub open spec fn type_id_of(path: Seq<char>, name: Seq<char>) -> Seq<char> {
    "type:"@ + path + "::"@ + name
}

pub fn file_id(path: &str) -> (id: String)
    ensures
        id@ == file_id_of(path@),
{
    let mut id: String = "file:".to_owned();
    id.append(path);
    id
}

pub fn fn_id(path: &str, name: &str) -> (id: String)
    ensures
        id@ == fn_id_of(path@, name@),
{
    let mut id: String = "fn:".to_owned();
    id.append(path);
    id.append("::");
    id.append(name);
    id
}

pub fn type_id(path: &str, name: &str) -> (id: String)
    ensures
        id@ == type_id_of(path@, name@),
{
    let mut id: String = "type:".to_owned();
    id.append(path);
    id.append("::");
    id.append(name);
    id
}

} // verus!
