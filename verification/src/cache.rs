//! Where the cache keeps what it knows of a book: one directory for every
//! book identifier, and in it the metadata and the images of that book alone.

use vstd::prelude::*;
use vstd::string::StringExecFns;

verus! {

/// The layout of the cache on disk.
#[derive(Clone, Copy, Debug)]
pub struct Cache;

impl Cache {
    /// The directory of the book `id` under the cache directory `root`.
    pub open spec fn book_path(root: Seq<char>, id: Seq<char>) -> Seq<char> {
        root + "/"@ + id
    }

    /// The file that holds the image `filename` of the book `id`.
    pub open spec fn image_path(root: Seq<char>, id: Seq<char>, filename: Seq<char>) -> Seq<char> {
        Cache::book_path(root, id) + "/images/"@ + filename
    }

    /// The directory of the book `id` under the cache directory `root`.
    pub fn book_dir(root: &str, id: &str) -> (r: String)
        ensures
            r@ == Cache::book_path(root@, id@),
    {
        let mut path = String::from_str(root);
        path.append("/");
        path.append(id);
        path
    }

    /// The file that holds the metadata of the book `id`.
    pub fn book_file(root: &str, id: &str) -> (r: String)
        ensures
            r@ == Cache::book_path(root@, id@) + "/book.json"@,
    {
        let mut path = Cache::book_dir(root, id);
        path.append("/book.json");
        path
    }

    /// The directory that holds the images of the book `id`.
    pub fn images_dir(root: &str, id: &str) -> (r: String)
        ensures
            r@ == Cache::book_path(root@, id@) + "/images"@,
    {
        let mut path = Cache::book_dir(root, id);
        path.append("/images");
        path
    }

    /// The file that holds the image `filename` of the book `id`.
    pub fn image_file(root: &str, id: &str, filename: &str) -> (r: String)
        ensures
            r@ == Cache::image_path(root@, id@, filename@),
    {
        let mut path = Cache::book_dir(root, id);
        path.append("/images/");
        path.append(filename);
        path
    }
}

/// No two books share a file of the cache: where the identifiers of two
/// books hold no `/`, an image of the one and an image of the other lie at
/// the same place only if the two are the same book and the same image.
pub proof fn lemma_books_share_no_image(
    root: Seq<char>,
    id: Seq<char>,
    other: Seq<char>,
    filename: Seq<char>,
    other_filename: Seq<char>,
)
    requires
        !id.contains('/'),
        !other.contains('/'),
        Cache::image_path(root, id, filename) == Cache::image_path(root, other, other_filename),
    ensures
        id == other,
        filename == other_filename,
{
    reveal_strlit("/");
    reveal_strlit("/images/");
    let sep = "/"@;
    let dir = "/images/"@;
    let a = Cache::image_path(root, id, filename);
    let b = Cache::image_path(root, other, other_filename);
    let start: int = root.len() as int + 1;
    let n: int = id.len() as int;
    let m: int = other.len() as int;
    assert(a.len() == start + id.len() + 8 + filename.len());
    assert(b.len() == start + other.len() + 8 + other_filename.len());
    assert forall|k: int| 0 <= k < id.len() implies a[start + k] == id[k] by {}
    assert forall|k: int| 0 <= k < other.len() implies b[start + k] == other[k] by {}
    assert(a[start + n] == '/');
    assert(b[start + m] == '/');
    if id.len() < other.len() {
        assert(b[start + n] == other[n]);
        assert(other.contains(other[n]));
    }
    if other.len() < id.len() {
        assert(a[start + m] == id[m]);
        assert(id.contains(id[m]));
    }
    assert(id.len() == other.len());
    assert(id =~= other) by {
        assert forall|k: int| 0 <= k < id.len() implies id[k] == other[k] by {
            assert(a[start + k] == b[start + k]);
        }
    }
    let tail: int = start + n + 8;
    assert(filename =~= other_filename) by {
        assert forall|k: int| 0 <= k < filename.len() implies filename[k] == other_filename[k] by {
            assert(a[tail + k] == filename[k]);
            assert(b[tail + k] == other_filename[k]);
        }
    }
}

} // verus!
