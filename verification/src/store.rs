//! Where the index is kept, and what its files hold.
//!
//! The index lives in two files below the user's home directory: the comics
//! that were fetched, and the identifiers of those that were not. This module
//! names the files, reads and writes the list of identifiers, and says what
//! is to be created before first use. Reading and writing the files
//! themselves is the caller's part.

use vstd::prelude::*;
use vstd::string::StringExecFns;
use crate::error::IndexError;
use crate::json::{json_id_list, parse_id_list};
use crate::text::{decimal, render_decimal};

verus! {

/// The directory of the index, below the home directory.
pub const DATA_DIR: &'static str = "/.local/share/searxkcd";

/// The directory of the comics' images, below [`DATA_DIR`].
pub const IMAGES_DIR: &'static str = "/images";

/// The file of the comics that were fetched, below [`DATA_DIR`].
pub const INDEX_FILE: &'static str = "/index.json";

/// The file of the identifiers still to fetch, below [`DATA_DIR`].
pub const PENDING_FILE: &'static str = "/error.json";

/// What the name of an image file ends in.
pub const IMAGE_SUFFIX: &'static str = ".png";

/// The directory of the comics' images.
pub open spec fn images_dir_of(home: Seq<char>) -> Seq<char> {
    home + DATA_DIR@ + IMAGES_DIR@
}

/// The file of the comics that were fetched.
pub open spec fn index_path_of(home: Seq<char>) -> Seq<char> {
    home + DATA_DIR@ + INDEX_FILE@
}

/// The file of the identifiers still to fetch.
pub open spec fn pending_path_of(home: Seq<char>) -> Seq<char> {
    home + DATA_DIR@ + PENDING_FILE@
}

/// The file of the image of comic `id`.
pub open spec fn image_path_of(home: Seq<char>, id: u64) -> Seq<char> {
    images_dir_of(home) + seq!['/'] + decimal(id as nat) + IMAGE_SUFFIX@
}

/// The text of a JSON array of numbers without white space: the numbers in
/// decimal with commas between them, in square brackets.
pub open spec fn id_list_text(ids: Seq<u64>) -> Seq<char> {
    seq!['['] + comma_separated(ids) + seq![']']
}

/// The numbers in decimal with commas between them.
pub open spec fn comma_separated(ids: Seq<u64>) -> Seq<char>
    decreases ids.len(),
{
    if ids.len() == 0 {
        Seq::empty()
    } else if ids.len() == 1 {
        decimal(ids[0] as nat)
    } else {
        comma_separated(ids.drop_last()) + seq![','] + decimal(ids.last() as nat)
    }
}

/// Asks `dirs::home_dir` for the user's home directory. What comes back
/// depends on the environment of the process, so nothing is promised of it:
/// `None` where no home directory is known, or where its path is no Unicode
/// text.
#[verifier::external_body]
pub fn get_home() -> (home: Option<String>) {
    dirs::home_dir().and_then(|path| path.to_str().map(|text| text.to_string()))
}

/// The directory of the comics' images.
pub fn images_dir(home: &str) -> (path: String)
    ensures
        path@ == images_dir_of(home@),
{
    let mut path = home.to_owned();
    path.append(DATA_DIR);
    path.append(IMAGES_DIR);
    path
}

/// The file of the comics that were fetched.
pub fn index_path(home: &str) -> (path: String)
    ensures
        path@ == index_path_of(home@),
{
    let mut path = home.to_owned();
    path.append(DATA_DIR);
    path.append(INDEX_FILE);
    path
}

/// The file of the identifiers still to fetch.
pub fn pending_path(home: &str) -> (path: String)
    ensures
        path@ == pending_path_of(home@),
{
    let mut path = home.to_owned();
    path.append(DATA_DIR);
    path.append(PENDING_FILE);
    path
}

/// The file of the image of comic `id`.
pub fn image_path(home: &str, id: u64) -> (path: String)
    ensures
        path@ == image_path_of(home@, id),
{
    proof {
        reveal_strlit("/");
    }
    let mut path = images_dir(home);
    path.append("/");
    path.append(render_decimal(id).as_str());
    path.append(IMAGE_SUFFIX);
    path
}

/// Reads the list of identifiers still to fetch from the text of its file.
/// Text that is no JSON array of numbers within `u64` is reported as
/// [`IndexError::StoreCorrupt`].
pub fn decode_pending(text: &str) -> (pending: Result<Vec<u64>, IndexError>)
    ensures
        match pending {
            Ok(ids) => json_id_list(text@) == Some(ids@),
            Err(error) => error == IndexError::StoreCorrupt && json_id_list(text@) is None,
        },
{
    match parse_id_list(text) {
        Ok(ids) => Ok(ids),
        Err(_) => Err(IndexError::StoreCorrupt),
    }
}

/// Writes the list of identifiers still to fetch as the text of its file: a
/// JSON array in its compact form.
pub fn encode_pending(pending: &Vec<u64>) -> (text: String)
    ensures
        text@ == id_list_text(pending@),
{
    proof {
        reveal_strlit("[");
        reveal_strlit("]");
    }
    let mut text = "[".to_owned();
    let mut k: usize = 0;
    while k < pending.len()
        invariant
            k <= pending.len(),
            text@ == seq!['['] + comma_separated(pending@.take(k as int)),
        decreases pending.len() - k,
    {
        if k > 0 {
            text.append(",");
        }
        text.append(render_decimal(pending[k]).as_str());
        proof {
            reveal_strlit(",");
            assert(pending@.take(k + 1).drop_last() =~= pending@.take(k as int));
        }
        k += 1;
    }
    assert(pending@.take(k as int) =~= pending@);
    text.append("]");
    text
}

/// A file to create, with what it is to hold.
#[derive(Debug, PartialEq, Eq)]
pub struct NewFile {
    pub path: String,
    pub text: String,
}

/// The mathematical value of a [`NewFile`].
pub struct NewFileView {
    pub path: Seq<char>,
    pub text: Seq<char>,
}

impl View for NewFile {
    type V = NewFileView;

    open spec fn view(&self) -> NewFileView {
        NewFileView { path: self.path@, text: self.text@ }
    }
}

/// What is to be created before the index is first used.
#[derive(Debug, PartialEq, Eq)]
pub struct InitPlan {
    /// The directory to create, with those above it, unless it exists.
    pub directory: String,
    /// The files to create, in this order.
    pub files: Vec<NewFile>,
}

/// The mathematical value of an [`InitPlan`].
pub struct InitPlanView {
    pub directory: Seq<char>,
    pub files: Seq<NewFileView>,
}

impl View for InitPlan {
    type V = InitPlanView;

    open spec fn view(&self) -> InitPlanView {
        InitPlanView {
            directory: self.directory@,
            files: self.files@.map_values(|file: NewFile| file@),
        }
    }
}

/// The files that are created where they are missing: each holds an empty
/// list. A file that exists is left as it is.
pub open spec fn missing_files(home: Seq<char>, index_exists: bool, pending_exists: bool) -> Seq<
    NewFileView,
> {
    let index = if index_exists {
        Seq::empty()
    } else {
        seq![NewFileView { path: index_path_of(home), text: id_list_text(Seq::empty()) }]
    };
    let pending = if pending_exists {
        Seq::empty()
    } else {
        seq![NewFileView { path: pending_path_of(home), text: id_list_text(Seq::empty()) }]
    };
    index + pending
}

/// Says what is to be created so that the index can be used: the directory of
/// the images, and each of the two files of the index that does not exist
/// yet, with an empty list in it.
pub fn init_index(home: &str, index_exists: bool, pending_exists: bool) -> (plan: InitPlan)
    ensures
        plan@ == (InitPlanView {
            directory: images_dir_of(home@),
            files: missing_files(home@, index_exists, pending_exists),
        }),
{
    let mut files: Vec<NewFile> = Vec::new();
    let empty: Vec<u64> = Vec::new();
    if !index_exists {
        files.push(NewFile { path: index_path(home), text: encode_pending(&empty) });
    }
    if !pending_exists {
        files.push(NewFile { path: pending_path(home), text: encode_pending(&empty) });
    }
    let plan = InitPlan { directory: images_dir(home), files };
    assert(plan@.files =~= missing_files(home@, index_exists, pending_exists));
    plan
}

/// Preparing the index twice creates nothing the second time.
pub proof fn init_is_idempotent(home: Seq<char>)
    ensures
        missing_files(home, true, true) == Seq::<NewFileView>::empty(),
{
}

} // verus!
