//! What a file server answers, once it knows what is on disk.
//!
//! Nothing here reads the disk or the network. The server finds out what is
//! at a path and reads it; what to do next and what to answer is decided
//! here.

use vstd::prelude::*;
use vstd::string::StringExecFns;

verus! {

/// What to do with a request for a path.
#[derive(Debug, Clone, Copy, PartialEq, Eq, Structural)]
pub enum FileStep {
    /// Nothing is there: answer that the file was not found.
    NotFound,
    /// A file is there: read it.
    ReadFile,
    /// A directory is there: list it.
    ListDirectory,
}

/// What to do with a request, given whether anything exists at its path
/// and whether it is a directory.
pub open spec fn step_for(exists: bool, is_dir: bool) -> FileStep {
    if !exists {
        FileStep::NotFound
    } else if is_dir {
        FileStep::ListDirectory
    } else {
        FileStep::ReadFile
    }
}

/// Decides what to do with a request, given whether anything exists at its
/// path and whether it is a directory.
pub fn file_step(exists: bool, is_dir: bool) -> (step: FileStep)
    ensures
        step == step_for(exists, is_dir),
{
    if !exists {
        FileStep::NotFound
    } else if is_dir {
        FileStep::ListDirectory
    } else {
        FileStep::ReadFile
    }
}

/// The answer for a path at which nothing is: status 404 and a message
/// that shows the path.
pub fn not_found_reply(display: &str) -> (reply: (u16, String))
    ensures
        reply.0 == 404,
        reply.1@ == "File "@ + display@ + " not found"@,
{
    let mut body = String::from_str("File ");
    body.append(display);
    body.append(" not found");
    (404, body)
}

/// The answer for a file, given how reading it went: its content with
/// status 200, or the message of the failure with status 500.
pub fn content_reply(read: Result<String, String>) -> (reply: (u16, String))
    ensures
        match read {
            Ok(content) => reply.0 == 200 && reply.1@ == content@,
            Err(message) => reply.0 == 500 && reply.1@ == message@,
        },
{
    match read {
        Ok(content) => (200, content),
        Err(message) => (500, message),
    }
}

/// The name under which an entry of a directory is listed: directories
/// carry a slash at the end.
pub open spec fn listed_name(name: Seq<char>, is_dir: bool) -> Seq<char> {
    if is_dir {
        name + "/"@
    } else {
        name
    }
}

/// Gives the name under which an entry of a directory is listed.
pub fn entry_name(name: &str, is_dir: bool) -> (listed: String)
    ensures
        listed@ == listed_name(name@, is_dir),
{
    let mut listed = String::from_str(name);
    if is_dir {
        listed.append("/");
    }
    proof {
        if !is_dir {
            assert(listed@ =~= name@);
        }
    }
    listed
}

/// One line of a listing: a link to the entry `name` of the directory at
/// `path`.
pub open spec fn listing_item(path: Seq<char>, name: Seq<char>) -> Seq<char> {
    "<li><a href=\"/"@ + path + "/"@ + name + "\">"@ + name + "</a></li>"@
}

/// The lines of a listing, one for each name, separated by line feeds.
pub open spec fn listing_items(path: Seq<char>, names: Seq<Seq<char>>) -> Seq<char>
    decreases names.len(),
{
    if names.len() == 0 {
        Seq::empty()
    } else if names.len() == 1 {
        listing_item(path, names[0])
    } else {
        listing_items(path, names.drop_last()) + "\n"@ + listing_item(path, names.last())
    }
}

/// The page that lists a directory.
pub open spec fn listing_page(path: Seq<char>, names: Seq<Seq<char>>) -> Seq<char> {
    "<html><body><ul>"@ + listing_items(path, names) + "</ul></body></html>"@
}

/// The names of a list of entries.
pub open spec fn names_of(entries: Seq<String>) -> Seq<Seq<char>> {
    entries.map_values(|entry: String| entry@)
}

/// The answer for a directory, given the names of its entries: status 200
/// and a page with a link to each entry.
pub fn listing_reply(path: &str, entries: &Vec<String>) -> (reply: (u16, String))
    ensures
        reply.0 == 200,
        reply.1@ == listing_page(path@, names_of(entries@)),
{
    let ghost names = names_of(entries@);
    let mut body = String::from_str("<html><body><ul>");
    let mut i: usize = 0;
    while i < entries.len()
        invariant
            i <= entries.len(),
            names == names_of(entries@),
            body@ == "<html><body><ul>"@ + listing_items(path@, names.take(i as int)),
        decreases entries.len() - i,
    {
        let ghost before = names.take(i as int);
        let ghost item = listing_item(path@, names[i as int]);
        if i > 0 {
            body.append("\n");
        }
        let name = entries[i].as_str();
        body.append("<li><a href=\"/");
        body.append(path);
        body.append("/");
        body.append(name);
        body.append("\">");
        body.append(name);
        body.append("</a></li>");
        proof {
            let after = names.take(i as int + 1);
            assert(after.drop_last() =~= before);
            assert(after.last() == names[i as int]);
            assert(name@ == names[i as int]);
            if i == 0 {
                assert(listing_items(path@, before) =~= Seq::<char>::empty());
                assert(body@ =~= "<html><body><ul>"@ + item);
            } else {
                assert(body@ =~= "<html><body><ul>"@ + (listing_items(path@, before) + "\n"@
                    + item));
            }
        }
        i = i + 1;
    }
    body.append("</ul></body></html>");
    proof {
        assert(names.take(entries@.len() as int) =~= names);
    }
    (200, body)
}

} // verus!
