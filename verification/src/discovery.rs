//! Discovery of the images of the two trees.
//!
//! The caller lists the files under each root; this module keeps the
//! supported images, names each by its path relative to its root, and
//! derives which images are new and which are gone.

use crate::dir::file_name_of;
use crate::dir::opt_text;
use crate::error::CompareError;
use crate::error::CompareErrorView;
use crate::path_set::texts;
use crate::path_set::PathSet;
use crate::text::compare;
use crate::text::Rank;
use std::path::Path;
use vstd::prelude::*;

verus! {

/// The place of the last dot of a file name, if it has one.
pub open spec fn last_dot(name: Seq<char>) -> Option<int>
    decreases name.len(),
{
    if name.len() == 0 {
        None
    } else if name.last() == '.' {
        Some(name.len() - 1)
    } else {
        last_dot(name.drop_last())
    }
}

/// The extension of a file name: what follows its last dot. A name without
/// a dot has none, nor has a name whose only dot is its first character.
pub open spec fn extension_of_name(name: Seq<char>) -> Option<Seq<char>> {
    match last_dot(name) {
        Some(dot) => if dot == 0 {
            None
        } else {
            Some(name.skip(dot + 1))
        },
        None => None,
    }
}

/// The extension of a path: that of its final component, if it has one.
pub open spec fn extension_of(path: Seq<char>) -> Option<Seq<char>> {
    match file_name_of(path) {
        Some(name) => extension_of_name(name),
        None => None,
    }
}

/// A string in lower case, as `str::to_lowercase` gives it.
pub uninterp spec fn lowercase_of(text: Seq<char>) -> Seq<char>;

/// A path without its `.` and `..` segments and repeated separators, as
/// `path_clean::clean` gives it.
pub uninterp spec fn cleaned(path: Seq<char>) -> Seq<char>;

/// A path without the leading directory `base`, as
/// `std::path::Path::strip_prefix` gives it.
pub uninterp spec fn without_prefix(path: Seq<char>, base: Seq<char>) -> Option<Seq<char>>;

/// Calls `std::path::Path::extension`. Not proved: the result is the part of
/// the final component of `path` after its last dot, and there is none
/// where the path has no final component, the component has no dot, or its
/// only dot is its first character.
#[verifier::external_body]
fn path_extension(path: &str) -> (extension: Option<String>)
    ensures
        opt_text(extension) == extension_of(path@),
{
    Path::new(path).extension().map(|extension| extension.to_string_lossy().into_owned())
}

/// Calls `str::to_lowercase`. Not proved: the result is `text` in lower
/// case, which the library knows as `lowercase_of`.
#[verifier::external_body]
fn lowercase(text: &str) -> (lowered: String)
    ensures
        lowered@ == lowercase_of(text@),
{
    text.to_lowercase()
}

/// Calls `path_clean::clean`. Not proved: the result is the cleaned path,
/// which the library knows as `cleaned`.
#[verifier::external_body]
fn clean_path(path: &str) -> (clean: String)
    ensures
        clean@ == cleaned(path@),
{
    path_clean::clean(Path::new(path)).to_string_lossy().into_owned()
}

/// Calls `std::path::Path::strip_prefix`. Not proved: the result is `path`
/// without the leading `base`, which the library knows as `without_prefix`;
/// it is `None` where `base` is no prefix of `path`.
#[verifier::external_body]
fn strip_prefix(path: &str, base: &str) -> (rest: Option<String>)
    ensures
        opt_text(rest) == without_prefix(path@, base@),
{
    Path::new(path).strip_prefix(Path::new(base)).ok().map(
        |rest| rest.to_string_lossy().into_owned(),
    )
}

/// Whether a lower-case extension is one of the supported image formats.
pub open spec fn supported_extension(extension: Seq<char>) -> bool {
    ||| extension == "tiff"@
    ||| extension == "jpeg"@
    ||| extension == "jpg"@
    ||| extension == "gif"@
    ||| extension == "png"@
    ||| extension == "bmp"@
    ||| extension == "webp"@
}

/// Whether a file with this extension is an image, whatever the case of its
/// letters.
pub open spec fn supported_from(extension: Option<Seq<char>>) -> bool {
    match extension {
        Some(e) => supported_extension(lowercase_of(e)),
        None => false,
    }
}

/// Whether `path` names a supported image.
pub open spec fn spec_is_supported_extension(path: Seq<char>) -> bool {
    supported_from(extension_of(path))
}

/// Whether a lower-case extension is one of the supported image formats.
pub fn is_supported(extension: &str) -> (supported: bool)
    ensures
        supported == supported_extension(extension@),
{
    compare(extension, "tiff") == Rank::Same || compare(extension, "jpeg") == Rank::Same || compare(
        extension,
        "jpg",
    ) == Rank::Same || compare(extension, "gif") == Rank::Same || compare(extension, "png")
        == Rank::Same || compare(extension, "bmp") == Rank::Same || compare(extension, "webp")
        == Rank::Same
}

/// Whether `path` names a supported image: its extension, in lower case, is
/// one of `tiff`, `jpeg`, `jpg`, `gif`, `png`, `bmp`, `webp`.
pub fn is_supported_extension(path: &str) -> (supported: bool)
    ensures
        supported == spec_is_supported_extension(path@),
{
    match path_extension(path) {
        Some(extension) => {
            let lowered = lowercase(extension.as_str());
            is_supported(lowered.as_str())
        },
        None => false,
    }
}

/// The path of `file` relative to `root`, both cleaned first.
pub open spec fn relative_to_root(root: Seq<char>, file: Seq<char>) -> Option<Seq<char>> {
    without_prefix(cleaned(file), cleaned(root))
}

/// `file` is a supported image that does not lie under `root`.
pub open spec fn stray(root: Seq<char>, file: Seq<char>) -> bool {
    spec_is_supported_extension(file) && relative_to_root(root, file) is None
}

/// The relative paths of the supported images among `files`.
pub open spec fn images_under(root: Seq<char>, files: Seq<Seq<char>>) -> Set<Seq<char>> {
    Set::new(
        |path: Seq<char>|
            exists|i: int|
                0 <= i < files.len() && spec_is_supported_extension(#[trigger] files[i])
                    && relative_to_root(root, files[i]) == Some(path),
    )
}

/// The images that are found do not depend on the order in which the files
/// are listed, nor on how often a file is listed.
pub proof fn lemma_images_under_ignores_order(
    root: Seq<char>,
    files: Seq<Seq<char>>,
    others: Seq<Seq<char>>,
)
    requires
        files.to_set() == others.to_set(),
    ensures
        images_under(root, files) == images_under(root, others),
{
    assert forall|path: Seq<char>|
        images_under(root, files).contains(path) <==> images_under(root, others).contains(
            path,
        ) by {
        if images_under(root, files).contains(path) {
            let i = choose|i: int|
                0 <= i < files.len() && spec_is_supported_extension(#[trigger] files[i])
                    && relative_to_root(root, files[i]) == Some(path);
            assert(files.contains(files[i]));
            assert(files.to_set().contains(files[i]));
            assert(others.contains(files[i]));
            let j = choose|j: int| 0 <= j < others.len() && others[j] == files[i];
            assert(spec_is_supported_extension(others[j]));
        }
        if images_under(root, others).contains(path) {
            let i = choose|i: int|
                0 <= i < others.len() && spec_is_supported_extension(#[trigger] others[i])
                    && relative_to_root(root, others[i]) == Some(path);
            assert(others.contains(others[i]));
            assert(others.to_set().contains(others[i]));
            assert(files.contains(others[i]));
            let j = choose|j: int| 0 <= j < files.len() && files[j] == others[i];
            assert(spec_is_supported_extension(files[j]));
        }
    }
    assert(images_under(root, files) =~= images_under(root, others));
}

/// The file at place `at` is stray, and no file before it is.
pub open spec fn first_stray(root: Seq<char>, files: Seq<Seq<char>>, at: int) -> bool {
    &&& 0 <= at < files.len()
    &&& stray(root, files[at])
    &&& forall|i: int| 0 <= i < at ==> !stray(root, #[trigger] files[i])
}

/// Collects the supported images among `files`, each under its path
/// relative to `root`. Fails with `PathResolution` exactly if a supported
/// image does not lie under `root`, and names the first such file.
pub fn collect_images(root: &str, files: &Vec<String>) -> (result: Result<PathSet, CompareError>)
    ensures
        match result {
            Ok(set) => {
                &&& forall|i: int| 0 <= i < files.len() ==> !stray(root@, #[trigger] texts(files@)[i])
                &&& set@ == images_under(root@, texts(files@))
                &&& set.wf()
            },
            Err(error) => exists|at: int| #[trigger]
                first_stray(root@, texts(files@), at) && error@ == CompareErrorView::PathResolution(
                    texts(files@)[at],
                ),
        },
{
    let clean_root = clean_path(root);
    let n: usize = files.len();
    let mut set = PathSet::new();
    let mut i: usize = 0;
    while i < n
        invariant
            i <= n,
            n == files.len(),
            clean_root@ == cleaned(root@),
            set.wf(),
            forall|j: int| 0 <= j < i ==> !stray(root@, #[trigger] texts(files@)[j]),
            set@ == images_under(root@, texts(files@).take(i as int)),
        decreases n - i,
    {
        let file = &files[i];
        let ghost seen = texts(files@).take(i as int);
        let ghost next = texts(files@).take(i + 1);
        assert(file@ == texts(files@)[i as int]);
        assert(next =~= seen.push(file@));
        if is_supported_extension(file.as_str()) {
            let clean_file = clean_path(file.as_str());
            match strip_prefix(clean_file.as_str(), clean_root.as_str()) {
                Some(relative) => {
                    let ghost path = relative@;
                    set.insert(relative);
                    proof {
                        assert forall|p: Seq<char>|
                            images_under(root@, seen).insert(path).contains(p) <==> images_under(
                                root@,
                                next,
                            ).contains(p) by {
                            if images_under(root@, seen).contains(p) {
                                let k = choose|k: int|
                                    0 <= k < seen.len() && spec_is_supported_extension(
                                        #[trigger] seen[k],
                                    ) && relative_to_root(root@, seen[k]) == Some(p);
                                assert(next[k] == seen[k]);
                            }
                            if p == path {
                                assert(next[i as int] == file@);
                            }
                            if images_under(root@, next).contains(p) {
                                let k = choose|k: int|
                                    0 <= k < next.len() && spec_is_supported_extension(
                                        #[trigger] next[k],
                                    ) && relative_to_root(root@, next[k]) == Some(p);
                                if k < i {
                                    assert(seen[k] == next[k]);
                                }
                            }
                        }
                        assert(set@ =~= images_under(root@, next));
                    }
                },
                None => {
                    proof {
                        assert(first_stray(root@, texts(files@), i as int));
                    }
                    return Err(CompareError::PathResolution(file.clone()));
                },
            }
        } else {
            proof {
                assert forall|p: Seq<char>|
                    images_under(root@, seen).contains(p) <==> images_under(root@, next).contains(
                        p,
                    ) by {
                    if images_under(root@, seen).contains(p) {
                        let k = choose|k: int|
                            0 <= k < seen.len() && spec_is_supported_extension(#[trigger] seen[k])
                                && relative_to_root(root@, seen[k]) == Some(p);
                        assert(next[k] == seen[k]);
                    }
                    if images_under(root@, next).contains(p) {
                        let k = choose|k: int|
                            0 <= k < next.len() && spec_is_supported_extension(#[trigger] next[k])
                                && relative_to_root(root@, next[k]) == Some(p);
                        assert(seen[k] == next[k]);
                    }
                }
                assert(set@ =~= images_under(root@, next));
            }
        }
        i = i + 1;
    }
    assert(texts(files@).take(n as int) =~= texts(files@));
    Ok(set)
}

/// The images of the two trees: those expected, those actually there, and
/// what sets them apart.
#[derive(Debug)]
pub struct DetectedImages {
    expected: PathSet,
    actual: PathSet,
    deleted: PathSet,
    new: PathSet,
}

/// The four sets of a `DetectedImages`.
pub struct DetectedView {
    pub expected: Set<Seq<char>>,
    pub actual: Set<Seq<char>>,
    pub deleted: Set<Seq<char>>,
    pub new: Set<Seq<char>>,
}

impl View for DetectedImages {
    type V = DetectedView;

    closed spec fn view(&self) -> DetectedView {
        DetectedView {
            expected: self.expected@,
            actual: self.actual@,
            deleted: self.deleted@,
            new: self.new@,
        }
    }
}

impl DetectedImages {
    /// The deleted images are the expected ones that are not there, the new
    /// images are those that are there and were not expected.
    #[verifier::type_invariant]
    pub closed spec fn wf(&self) -> bool {
        &&& self.expected.wf()
        &&& self.actual.wf()
        &&& self.deleted.wf()
        &&& self.new.wf()
        &&& self.deleted@ == self.expected@.difference(self.actual@)
        &&& self.new@ == self.actual@.difference(self.expected@)
    }

    /// The images that are compared: those that both trees hold.
    pub open spec fn spec_targets(&self) -> Set<Seq<char>> {
        self@.actual.intersect(self@.expected)
    }

    /// Derives the deleted and the new images from the two sets.
    pub fn from_sets(expected: PathSet, actual: PathSet) -> (detected: DetectedImages)
        ensures
            detected@.expected == expected@,
            detected@.actual == actual@,
            detected@.deleted == expected@.difference(actual@),
            detected@.new == actual@.difference(expected@),
            detected.wf(),
    {
        proof {
            use_type_invariant(&expected);
            use_type_invariant(&actual);
        }
        let deleted = expected.difference(&actual);
        let new = actual.difference(&expected);
        DetectedImages { expected, actual, deleted, new }
    }

    /// The expected images.
    pub fn expected(&self) -> (set: &PathSet)
        ensures
            set@ == self@.expected,
            set.wf(),
    {
        proof {
            use_type_invariant(self);
        }
        &self.expected
    }

    /// The images that are there.
    pub fn actual(&self) -> (set: &PathSet)
        ensures
            set@ == self@.actual,
            set.wf(),
    {
        proof {
            use_type_invariant(self);
        }
        &self.actual
    }

    /// The expected images that are not there.
    pub fn deleted(&self) -> (set: &PathSet)
        ensures
            set@ == self@.deleted,
            set@ == self@.expected.difference(self@.actual),
            set.wf(),
    {
        proof {
            use_type_invariant(self);
        }
        &self.deleted
    }

    /// The images that are there and were not expected.
    pub fn new_items(&self) -> (set: &PathSet)
        ensures
            set@ == self@.new,
            set@ == self@.actual.difference(self@.expected),
            set.wf(),
    {
        proof {
            use_type_invariant(self);
        }
        &self.new
    }

    /// The images to compare: those that both trees hold, in order.
    pub fn targets(&self) -> (targets: PathSet)
        ensures
            targets@ == self.spec_targets(),
            targets.wf(),
    {
        self.actual.intersection(&self.expected)
    }

    /// What holds of the four sets, whatever the two trees hold: the new
    /// images are the actual ones without the expected ones, the deleted
    /// images the expected ones without the actual ones, no image is both
    /// new and deleted, and every actual image is either new or a target.
    pub proof fn lemma_sets(&self)
        requires
            self.wf(),
        ensures
            self@.new == self@.actual.difference(self@.expected),
            self@.deleted == self@.expected.difference(self@.actual),
            self.spec_targets() == self@.actual.intersect(self@.expected),
            self@.new.intersect(self@.deleted) == Set::<Seq<char>>::empty(),
            self@.new.disjoint(self@.deleted),
            self@.new.disjoint(self.spec_targets()),
            self@.deleted.disjoint(self.spec_targets()),
            self@.new.union(self.spec_targets()) == self@.actual,
            self@.deleted.union(self.spec_targets()) == self@.expected,
    {
        assert(self@.new.intersect(self@.deleted) =~= Set::<Seq<char>>::empty());
        assert(self@.new.union(self.spec_targets()) =~= self@.actual);
        assert(self@.deleted.union(self.spec_targets()) =~= self@.expected);
    }
}

/// Discovers the images of the two trees from the files listed under each
/// root. Fails with `PathResolution` exactly if a supported image does not
/// lie under its root; the expected tree is looked at first.
pub fn find_images(
    expected_dir: &str,
    expected_files: &Vec<String>,
    actual_dir: &str,
    actual_files: &Vec<String>,
) -> (result: Result<DetectedImages, CompareError>)
    ensures
        match result {
            Ok(detected) => {
                &&& forall|i: int|
                    0 <= i < expected_files.len() ==> !stray(
                        expected_dir@,
                        #[trigger] texts(expected_files@)[i],
                    )
                &&& forall|i: int|
                    0 <= i < actual_files.len() ==> !stray(
                        actual_dir@,
                        #[trigger] texts(actual_files@)[i],
                    )
                &&& detected@.expected == images_under(expected_dir@, texts(expected_files@))
                &&& detected@.actual == images_under(actual_dir@, texts(actual_files@))
                &&& detected@.deleted == detected@.expected.difference(detected@.actual)
                &&& detected@.new == detected@.actual.difference(detected@.expected)
                &&& detected.wf()
            },
            Err(error) => {
                ||| exists|at: int| #[trigger]
                    first_stray(expected_dir@, texts(expected_files@), at) && error@
                        == CompareErrorView::PathResolution(texts(expected_files@)[at])
                ||| {
                    &&& forall|i: int|
                        0 <= i < expected_files.len() ==> !stray(
                            expected_dir@,
                            #[trigger] texts(expected_files@)[i],
                        )
                    &&& exists|at: int| #[trigger]
                        first_stray(actual_dir@, texts(actual_files@), at) && error@
                            == CompareErrorView::PathResolution(texts(actual_files@)[at])
                }
            },
        },
{
    let expected = match collect_images(expected_dir, expected_files) {
        Ok(set) => set,
        Err(error) => {
            return Err(error);
        },
    };
    let actual = match collect_images(actual_dir, actual_files) {
        Ok(set) => set,
        Err(error) => {
            return Err(error);
        },
    };
    Ok(DetectedImages::from_sets(expected, actual))
}

} // verus!
