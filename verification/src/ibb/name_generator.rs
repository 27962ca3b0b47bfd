//! Target file names for the images of an album: kept as they are, or numbered by a pattern,
//! never twice the same.
use vstd::prelude::*;

use crate::ibb::utils::{sanitize_path_segment, sanitize_segment};
use crate::ibb::ImgbbError;
use crate::path::{file_stem_and_extension, join_path_str, path_join, split_file_name};
use crate::text::{
    chars_of, contains, decimal, decimal_string, owned, push_decimal, push_str, replace_all,
    replace_chars, str_contains, str_eq, string_of, trim, trim_str,
};

verus! {

/// How album files are named.
#[derive(Clone, Debug, PartialEq, Eq)]
pub enum AlbumFileNameMode {
    /// The original file name, with `_1`, `_2`... added to the stem when it is taken.
    PreserveOriginal,
    /// A pattern with `{count}` (or `{}`), and optionally `{album}` and `{name}`.
    CountPattern(String),
}

impl Default for AlbumFileNameMode {
    /// Original names.
    fn default() -> (m: Self)
        ensures
            m == AlbumFileNameMode::PreserveOriginal,
    {
        AlbumFileNameMode::PreserveOriginal
    }
}

/// The pattern with every placeholder removed.
pub open spec fn pattern_rest(p: Seq<char>) -> Seq<char> {
    replace_all(
        replace_all(replace_all(replace_all(p, "{count}"@, Seq::empty()), "{}"@, Seq::empty()), "{album}"@, Seq::empty()),
        "{name}"@,
        Seq::empty(),
    )
}

/// Why a naming mode is refused, checked in this order.
pub open spec fn mode_error(m: AlbumFileNameMode) -> Option<ImgbbError> {
    match m {
        AlbumFileNameMode::PreserveOriginal => None,
        AlbumFileNameMode::CountPattern(p) => if trim(p@).len() == 0 {
            Some(ImgbbError::EmptyCountPattern)
        } else if !(contains(p@, "{count}"@) || contains(p@, "{}"@)) {
            Some(ImgbbError::MissingCountPlaceholder)
        } else if contains(pattern_rest(p@), "{"@) || contains(pattern_rest(p@), "}"@) {
            Some(ImgbbError::UnknownPlaceholder)
        } else {
            None
        },
    }
}

fn remove_all(s: &[char], pat: &str) -> (r: Vec<char>)
    requires
        pat@.len() > 0,
    ensures
        r@ == replace_all(s@, pat@, Seq::empty()),
{
    let p = chars_of(pat);
    let e: Vec<char> = Vec::new();
    replace_chars(s, &p, &e)
}

/// Checks a naming mode.
pub fn validate_name_mode(mode: &AlbumFileNameMode) -> (r: Result<(), ImgbbError>)
    ensures
        r == match mode_error(*mode) {
            Some(e) => Err(e),
            None => Ok::<(), ImgbbError>(()),
        },
{
    proof {
        reveal_strlit("{count}");
        reveal_strlit("{}");
        reveal_strlit("{album}");
        reveal_strlit("{name}");
    }
    match mode {
        AlbumFileNameMode::PreserveOriginal => Ok(()),
        AlbumFileNameMode::CountPattern(pattern) => {
            let t = trim_str(pattern.as_str());
            if t.as_str().is_empty() {
                return Err(ImgbbError::EmptyCountPattern);
            }
            if !(str_contains(pattern.as_str(), "{count}") || str_contains(pattern.as_str(), "{}")) {
                return Err(ImgbbError::MissingCountPlaceholder);
            }
            let cs = chars_of(pattern.as_str());
            let r1 = remove_all(&cs, "{count}");
            let r2 = remove_all(&r1, "{}");
            let r3 = remove_all(&r2, "{album}");
            let rest = remove_all(&r3, "{name}");
            let s = string_of(&rest);
            if str_contains(s.as_str(), "{") || str_contains(s.as_str(), "}") {
                return Err(ImgbbError::UnknownPlaceholder);
            }
            Ok(())
        },
    }
}

/// A counting pattern filled in: `{count}` and `{}` become the number, `{album}` the album
/// name and `{name}` the original stem.
pub open spec fn rendered(pattern: Seq<char>, count: nat, album: Seq<char>, name: Seq<char>) -> Seq<char> {
    replace_all(
        replace_all(replace_all(replace_all(pattern, "{count}"@, decimal(count)), "{}"@, decimal(count)), "{album}"@, album),
        "{name}"@,
        name,
    )
}

/// Fills in a counting pattern.
pub fn render_count_pattern(pattern: &str, count: usize, album: &str, name: &str) -> (r: String)
    ensures
        r@ == rendered(pattern@, count as nat, album@, name@),
{
    proof {
        reveal_strlit("{count}");
        reveal_strlit("{}");
        reveal_strlit("{album}");
        reveal_strlit("{name}");
    }
    let c = chars_of(decimal_string(count).as_str());
    let cs = chars_of(pattern);
    let r1 = replace_chars(&cs, &chars_of("{count}"), &c);
    let r2 = replace_chars(&r1, &chars_of("{}"), &c);
    let r3 = replace_chars(&r2, &chars_of("{album}"), &chars_of(album));
    let r4 = replace_chars(&r3, &chars_of("{name}"), &chars_of(name));
    string_of(&r4)
}

/// A file name cut into its cleaned stem and extension.
#[derive(Clone, Debug, PartialEq, Eq)]
pub struct FileNameParts {
    pub stem: String,
    pub extension: Option<String>,
}

/// The stem and extension of a file name once cleaned: the stem `file` when it is empty,
/// an empty extension dropped; `None` when nothing is left of the name.
pub open spec fn file_name_parts(original: Seq<char>) -> Option<(Seq<char>, Option<Seq<char>>)> {
    let safe = sanitize_segment(original);
    if safe.len() == 0 {
        None
    } else {
        let (stem, ext) = split_file_name(safe);
        Some(
            (
                if stem.len() == 0 {
                    "file"@
                } else {
                    stem
                },
                match ext {
                    Some(e) => if e.len() > 0 {
                        Some(e)
                    } else {
                        None
                    },
                    None => None,
                },
            ),
        )
    }
}

/// The file name made of a stem and an optional extension.
pub open spec fn with_stem(stem: Seq<char>, ext: Option<Seq<char>>) -> Seq<char> {
    match ext {
        Some(e) => stem + "."@ + e,
        None => stem,
    }
}

impl FileNameParts {
    /// Cleans a file name and cuts it into stem and extension.
    pub fn parse(original_filename: &str) -> (r: Result<Self, ImgbbError>)
        ensures
            match file_name_parts(original_filename@) {
                Some((stem, ext)) => r matches Ok(p) && p.stem@ == stem && crate::url::opt_text(
                    p.extension,
                ) == ext,
                None => r == Err::<Self, ImgbbError>(ImgbbError::EmptyFileName),
            },
    {
        let safe = sanitize_path_segment(original_filename);
        let cs = chars_of(safe.as_str());
        if cs.len() == 0 {
            return Err(ImgbbError::EmptyFileName);
        }
        let (stem, ext) = file_stem_and_extension(&cs);
        let stem = if stem.len() == 0 {
            owned("file")
        } else {
            string_of(&stem)
        };
        let extension = match ext {
            Some(e) => if e.len() > 0 {
                Some(string_of(&e))
            } else {
                None
            },
            None => None,
        };
        Ok(FileNameParts { stem, extension })
    }

    /// The file name with another stem and the same extension.
    pub fn file_name_with_stem(&self, stem: &str) -> (r: String)
        ensures
            r@ == with_stem(stem@, crate::url::opt_text(self.extension)),
    {
        match &self.extension {
            Some(e) => {
                let mut out: Vec<char> = Vec::new();
                push_str(&mut out, stem);
                push_str(&mut out, ".");
                push_str(&mut out, e.as_str());
                string_of(&out)
            },
            None => owned(stem),
        }
    }
}

/// Whether something is stored at a path (`std::path::Path::exists`). What is on disk is
/// not known here, so nothing is stated of the answer.
#[verifier::external_body]
fn path_exists(path: &str) -> bool {
    std::path::Path::new(path).exists()
}

/// The stem with a numeric suffix: `stem_k`, or the stem itself for no suffix.
pub open spec fn suffixed(stem: Seq<char>, k: Option<nat>) -> Seq<char> {
    match k {
        Some(n) => stem + "_"@ + decimal(n),
        None => stem,
    }
}

/// Chooses the target path of each file of an album.
#[derive(Clone, Debug)]
pub struct AlbumFileNameGenerator {
    directory: String,
    album_name: String,
    mode: AlbumFileNameMode,
    occupied_paths: Vec<String>,
    next_count: usize,
}

/// The `j`-th path offered to a file of this stem and extension, in the order they are tried:
/// the stem itself, then the stem with `_1`, `_2`, ... added; or the pattern filled in with
/// the number `next_count + j`, `None` when that name cleans to nothing.
pub open spec fn candidate(
    g: AlbumFileNameGenerator,
    stem: Seq<char>,
    ext: Option<Seq<char>>,
    j: int,
) -> Option<Seq<char>> {
    match g.mode_view() {
        AlbumFileNameMode::PreserveOriginal => Some(
            path_join(
                g.directory_view(),
                with_stem(
                    suffixed(
                        stem,
                        if j == 0 {
                            None
                        } else {
                            Some(j as nat)
                        },
                    ),
                    ext,
                ),
            ),
        ),
        AlbumFileNameMode::CountPattern(pat) => {
            let name = sanitize_segment(
                rendered(pat@, (g.next_count_view() + j) as nat, g.album_view(), stem),
            );
            if name.len() == 0 {
                None
            } else {
                Some(path_join(g.directory_view(), with_stem(name, ext)))
            }
        },
    }
}

/// How many paths are offered before the names run out: the stem and every suffix up to the
/// largest `usize`, or every number from the next one up to (not including) the largest
/// `usize`.
pub open spec fn candidate_limit(g: AlbumFileNameGenerator) -> nat {
    match g.mode_view() {
        AlbumFileNameMode::PreserveOriginal => usize::MAX as nat + 1,
        AlbumFileNameMode::CountPattern(_) => (usize::MAX - g.next_count_view()) as nat,
    }
}

/// A path is taken when the disk check found something there or it was handed out before.
pub open spec fn is_taken(g: AlbumFileNameGenerator, p: Seq<char>, on_disk: bool) -> bool {
    on_disk || g.occupied_view().contains(p)
}

/// The first `m` paths offered were all taken, by the disk checks' answers `on_disk`.
pub open spec fn all_taken(
    g: AlbumFileNameGenerator,
    stem: Seq<char>,
    ext: Option<Seq<char>>,
    on_disk: Seq<bool>,
    m: int,
) -> bool {
    forall|j: int|
        0 <= j < m ==> (#[trigger] candidate(g, stem, ext, j) matches Some(p) && is_taken(
            g,
            p,
            on_disk[j],
        ))
}

/// What naming a file gives, when the disk checks of the paths offered, in order, answered
/// `on_disk`: the first path offered that is not taken; `EmptyRenderedName` when the first
/// number not taken fills the pattern with a name that cleans to nothing; `NamesExhausted`
/// when every path offered is taken.
pub open spec fn first_free(
    g: AlbumFileNameGenerator,
    stem: Seq<char>,
    ext: Option<Seq<char>>,
    on_disk: Seq<bool>,
    r: Result<String, ImgbbError>,
) -> bool {
    let n = on_disk.len() as int;
    match r {
        Ok(p) => n >= 1 && all_taken(g, stem, ext, on_disk, n - 1) && candidate(g, stem, ext, n - 1) == Some(p@) && !is_taken(g, p@, on_disk[n - 1]),
        Err(ImgbbError::EmptyRenderedName) => all_taken(g, stem, ext, on_disk, n) && n
            < candidate_limit(g) && candidate(g, stem, ext, n) is None,
        Err(ImgbbError::NamesExhausted) => all_taken(g, stem, ext, on_disk, n) && n
            == candidate_limit(g),
        Err(_) => false,
    }
}

/// The disk check `f` answered `b` for the path `p`.
pub open spec fn answered<F: Fn(&str) -> bool>(f: F, p: Seq<char>, b: bool) -> bool {
    exists|s: &str| #![trigger call_ensures(f, (s,), b)] s@ == p && call_ensures(f, (s,), b)
}

/// Every answer in `on_disk` is what `f` answered for the path offered at that step.
pub open spec fn answered_all<F: Fn(&str) -> bool>(
    f: F,
    g: AlbumFileNameGenerator,
    stem: Seq<char>,
    ext: Option<Seq<char>>,
    on_disk: Seq<bool>,
) -> bool {
    forall|j: int|
        0 <= j < on_disk.len() ==> (#[trigger] candidate(g, stem, ext, j) matches Some(p)
            && answered(f, p, on_disk[j]))
}

/// The next number once a file is named: moved on by every number tried (counting mode only).
pub open spec fn count_after(
    g: AlbumFileNameGenerator,
    on_disk: Seq<bool>,
    r: Result<String, ImgbbError>,
) -> int {
    match g.mode_view() {
        AlbumFileNameMode::PreserveOriginal => g.next_count_view() as int,
        AlbumFileNameMode::CountPattern(_) => if r == Err::<String, ImgbbError>(
            ImgbbError::EmptyRenderedName,
        ) {
            g.next_count_view() + on_disk.len() + 1
        } else {
            g.next_count_view() + on_disk.len()
        },
    }
}

/// The path that a call of [`AlbumFileNameGenerator::next_path`] handed out, if any.
pub open spec fn handed_out(r: Result<String, ImgbbError>) -> Option<Seq<char>> {
    match r {
        Ok(p) => Some(p@),
        Err(_) => None,
    }
}

/// One call of [`AlbumFileNameGenerator::next_path`]: a path handed out was not taken before
/// and is now; otherwise the taken paths stay as they were.
pub open spec fn naming_step(
    before: AlbumFileNameGenerator,
    after: AlbumFileNameGenerator,
    handed: Option<Seq<char>>,
) -> bool {
    match handed {
        Some(p) => !before.occupied_view().contains(p) && after.occupied_view()
            == before.occupied_view().push(p),
        None => after.occupied_view() == before.occupied_view(),
    }
}

/// A generator never hands out a path twice: over any run of calls of `next_path` from a
/// fresh generator, every path handed out stays taken and differs from every other one.
pub proof fn law_paths_never_repeat(
    run: Seq<AlbumFileNameGenerator>,
    handed: Seq<Option<Seq<char>>>,
)
    requires
        run.len() == handed.len() + 1,
        run[0].occupied_view().len() == 0,
        forall|i: int| 0 <= i < handed.len() ==> #[trigger] naming_step(run[i], run[i + 1], handed[i]),
    ensures
        forall|i: int|
            0 <= i < handed.len() && handed[i] is Some ==> run.last().occupied_view().contains(
                #[trigger] handed[i]->0,
            ),
        forall|i: int, j: int|
            0 <= i < j < handed.len() && handed[i] is Some && handed[j] is Some ==> #[trigger] handed[i]
                != #[trigger] handed[j],
    decreases handed.len(),
{
    if handed.len() > 0 {
        let n = handed.len() - 1;
        let shorter = run.drop_last();
        let earlier = handed.drop_last();
        assert forall|i: int| 0 <= i < earlier.len() implies #[trigger] naming_step(
            shorter[i],
            shorter[i + 1],
            earlier[i],
        ) by {
            assert(naming_step(run[i], run[i + 1], handed[i]));
        }
        law_paths_never_repeat(shorter, earlier);
        assert(naming_step(run[n], run[n + 1], handed[n]));
        assert(shorter.last() == run[n]);
        assert forall|i: int|
            0 <= i < handed.len() && handed[i] is Some implies run.last().occupied_view().contains(
            #[trigger] handed[i]->0) by {
            if i < n {
                assert(earlier[i] == handed[i]);
                let k = choose|k: int| 0 <= k < run[n].occupied_view().len() && run[n].occupied_view()[k]
                    == handed[i]->0;
                if handed[n] is Some {
                    assert(run.last().occupied_view()[k] == handed[i]->0);
                }
            } else {
                assert(run.last().occupied_view()[run[n].occupied_view().len() as int] == handed[n]->0);
            }
        }
        assert forall|i: int, j: int|
            0 <= i < j < handed.len() && handed[i] is Some && handed[j] is Some implies #[trigger] handed[i]
                != #[trigger] handed[j] by {
            if j < n {
                assert(earlier[i] == handed[i] && earlier[j] == handed[j]);
            } else {
                assert(earlier[i] == handed[i]);
                assert(run[n].occupied_view().contains(handed[i]->0));
            }
        }
    }
}

impl AlbumFileNameGenerator {
    /// The directory of the album.
    pub closed spec fn directory_view(&self) -> Seq<char> {
        self.directory@
    }

    /// The cleaned album name.
    pub closed spec fn album_view(&self) -> Seq<char> {
        self.album_name@
    }

    /// The naming mode.
    pub closed spec fn mode_view(&self) -> AlbumFileNameMode {
        self.mode
    }

    /// The paths handed out so far.
    pub closed spec fn occupied_view(&self) -> Seq<Seq<char>> {
        self.occupied_paths@.map_values(|p: String| p@)
    }

    /// The next number of the counting pattern.
    pub closed spec fn next_count_view(&self) -> usize {
        self.next_count
    }

    /// A generator for an album directory; refused when the cleaned album name is empty or
    /// the mode is invalid.
    pub fn new(directory: &str, album_name: &str, mode: AlbumFileNameMode) -> (r: Result<Self, ImgbbError>)
        ensures
            sanitize_segment(album_name@).len() == 0 ==> r == Err::<Self, ImgbbError>(ImgbbError::EmptyAlbumName),
            sanitize_segment(album_name@).len() > 0 && mode_error(mode) is Some ==> r == Err::<
                Self,
                ImgbbError,
            >(mode_error(mode)->0),
            sanitize_segment(album_name@).len() > 0 && mode_error(mode) is None ==> (r matches Ok(g)
                && g.directory_view() == directory@ && g.album_view() == sanitize_segment(album_name@)
                && g.mode_view() == mode && g.occupied_view().len() == 0 && g.next_count_view() == 1),
    {
        let album = sanitize_path_segment(album_name);
        if album.as_str().is_empty() {
            return Err(ImgbbError::EmptyAlbumName);
        }
        match validate_name_mode(&mode) {
            Err(e) => return Err(e),
            Ok(()) => {},
        }
        let g = AlbumFileNameGenerator {
            directory: owned(directory),
            album_name: album,
            mode,
            occupied_paths: Vec::new(),
            next_count: 1,
        };
        assert(g.occupied_view() =~= Seq::<Seq<char>>::empty());
        Ok(g)
    }

    fn is_occupied(&self, path: &str) -> (b: bool)
        ensures
            b == self.occupied_view().contains(path@),
    {
        let ghost ov = self.occupied_view();
        let mut i: usize = 0;
        while i < self.occupied_paths.len()
            invariant
                i <= self.occupied_paths@.len(),
                ov == self.occupied_view(),
                ov.len() == self.occupied_paths@.len(),
                forall|j: int| 0 <= j < i ==> ov[j] != path@,
            decreases self.occupied_paths@.len() - i,
        {
            assert(ov[i as int] == self.occupied_paths@[i as int]@);
            if str_eq(self.occupied_paths[i].as_str(), path) {
                return true;
            }
            i = i + 1;
        }
        false
    }

    /// Takes a path when the disk check found nothing there (`on_disk` false) and it was
    /// not handed out before.
    pub fn take_candidate(&mut self, path: &str, on_disk: bool) -> (b: bool)
        ensures
            b == !is_taken(*old(self), path@, on_disk),
            b ==> final(self).occupied_view() == old(self).occupied_view().push(path@),
            !b ==> *final(self) == *old(self),
            final(self).directory_view() == old(self).directory_view(),
            final(self).album_view() == old(self).album_view(),
            final(self).mode_view() == old(self).mode_view(),
            final(self).next_count_view() == old(self).next_count_view(),
    {
        if on_disk || self.is_occupied(path) {
            return false;
        }
        let ghost ov = self.occupied_view();
        self.occupied_paths.push(owned(path));
        assert(self.occupied_view() =~= ov.push(path@));
        true
    }

    /// The `j`-th path offered to a file (see [`candidate`]).
    pub fn candidate_path(&self, parts: &FileNameParts, j: usize) -> (r: Option<String>)
        requires
            self.mode_view() is CountPattern ==> self.next_count_view() + j <= usize::MAX,
        ensures
            crate::url::opt_text(r) == candidate(
                *self,
                parts.stem@,
                crate::url::opt_text(parts.extension),
                j as int,
            ),
    {
        let ghost ext = crate::url::opt_text(parts.extension);
        match &self.mode {
            AlbumFileNameMode::PreserveOriginal => {
                let stem = if j == 0 {
                    owned(parts.stem.as_str())
                } else {
                    let mut s: Vec<char> = Vec::new();
                    push_str(&mut s, parts.stem.as_str());
                    push_str(&mut s, "_");
                    push_decimal(&mut s, j);
                    string_of(&s)
                };
                assert(stem@ == suffixed(
                    parts.stem@,
                    if j == 0 {
                        None
                    } else {
                        Some(j as nat)
                    },
                ));
                let name = parts.file_name_with_stem(stem.as_str());
                Some(join_path_str(self.directory.as_str(), name.as_str()))
            },
            AlbumFileNameMode::CountPattern(pattern) => {
                let count: usize = self.next_count + j;
                let rendered_stem = render_count_pattern(
                    pattern.as_str(),
                    count,
                    self.album_name.as_str(),
                    parts.stem.as_str(),
                );
                let stem = sanitize_path_segment(rendered_stem.as_str());
                if stem.as_str().is_empty() {
                    return None;
                }
                let name = parts.file_name_with_stem(stem.as_str());
                Some(join_path_str(self.directory.as_str(), name.as_str()))
            },
        }
    }

    /// The next free path for a file: the first path offered (the original name, then with
    /// `_1`, `_2`, ... added; or the pattern filled in with the next numbers) that is not on
    /// disk and was not handed out before. What is on disk is asked of `Path::exists`.
    pub fn next_path(&mut self, original_filename: &str) -> (r: Result<String, ImgbbError>)
        ensures
            file_name_parts(original_filename@) is None ==> r == Err::<String, ImgbbError>(
                ImgbbError::EmptyFileName,
            ) && *final(self) == *old(self),
            file_name_parts(original_filename@) matches Some((stem, ext)) ==> exists|on_disk: Seq<
                bool,
            >|
                #[trigger] first_free(*old(self), stem, ext, on_disk, r) && final(self).next_count_view()
                    == count_after(*old(self), on_disk, r),
            naming_step(*old(self), *final(self), handed_out(r)),
            r matches Err(e) ==> (e == ImgbbError::EmptyFileName && file_name_parts(original_filename@) is None)
                || e == ImgbbError::NamesExhausted || (e == ImgbbError::EmptyRenderedName
                && old(self).mode_view() is CountPattern),
            final(self).directory_view() == old(self).directory_view(),
            final(self).album_view() == old(self).album_view(),
            final(self).mode_view() == old(self).mode_view(),
    {
        let check = |p: &str| path_exists(p);
        self.next_path_with(original_filename, &check)
    }

    /// The next free path for a file, with the disk check given: `on_disk(p)` answers whether
    /// something is stored at `p`. The paths are offered in order and each is asked of
    /// `on_disk` once; the first that is neither on disk nor handed out before is taken.
    pub fn next_path_with<F: Fn(&str) -> bool>(&mut self, original_filename: &str, on_disk: &F) -> (r: Result<String, ImgbbError>)
        requires
            forall|p: &str| call_requires(*on_disk, (p,)),
        ensures
            file_name_parts(original_filename@) is None ==> r == Err::<String, ImgbbError>(
                ImgbbError::EmptyFileName,
            ) && *final(self) == *old(self),
            file_name_parts(original_filename@) matches Some((stem, ext)) ==> exists|answers: Seq<
                bool,
            >|
                #[trigger] first_free(*old(self), stem, ext, answers, r) && final(self).next_count_view()
                    == count_after(*old(self), answers, r) && answered_all(*on_disk, *old(self), stem, ext, answers),
            naming_step(*old(self), *final(self), handed_out(r)),
            r matches Err(e) ==> (e == ImgbbError::EmptyFileName && file_name_parts(original_filename@) is None)
                || e == ImgbbError::NamesExhausted || (e == ImgbbError::EmptyRenderedName
                && old(self).mode_view() is CountPattern),
            final(self).directory_view() == old(self).directory_view(),
            final(self).album_view() == old(self).album_view(),
            final(self).mode_view() == old(self).mode_view(),
    {
        let parts = match FileNameParts::parse(original_filename) {
            Ok(p) => p,
            Err(e) => return Err(e),
        };
        if self.mode.is_preserve_original() {
            self.next_preserved_path(&parts, on_disk)
        } else {
            self.next_count_path(&parts, on_disk)
        }
    }

    /// Offers the original name, then `_1`, `_2`, ... added to its stem, until one is free.
    fn next_preserved_path<F: Fn(&str) -> bool>(&mut self, parts: &FileNameParts, on_disk_check: &F) -> (r: Result<String, ImgbbError>)
        requires
            forall|p: &str| call_requires(*on_disk_check, (p,)),
            old(self).mode_view() == AlbumFileNameMode::PreserveOriginal,
        ensures
            exists|on_disk: Seq<bool>|
                #[trigger] first_free(
                    *old(self),
                    parts.stem@,
                    crate::url::opt_text(parts.extension),
                    on_disk,
                    r,
                ) && final(self).next_count_view() == count_after(*old(self), on_disk, r)
                    && answered_all(
                    *on_disk_check,
                    *old(self),
                    parts.stem@,
                    crate::url::opt_text(parts.extension),
                    on_disk,
                ),
            naming_step(*old(self), *final(self), handed_out(r)),
            final(self).directory_view() == old(self).directory_view(),
            final(self).album_view() == old(self).album_view(),
            final(self).mode_view() == old(self).mode_view(),
    {
        let ghost g0 = *self;
        let ghost stem = parts.stem@;
        let ghost ext = crate::url::opt_text(parts.extension);
        let ghost mut on_disk: Seq<bool> = Seq::empty();
        let mut j: usize = 0;
        loop
            invariant
                *self == g0,
                g0 == *old(self),
                g0.mode_view() == AlbumFileNameMode::PreserveOriginal,
                stem == parts.stem@,
                ext == crate::url::opt_text(parts.extension),
                on_disk.len() == j,
                all_taken(g0, stem, ext, on_disk, j as int),
                answered_all(*on_disk_check, g0, stem, ext, on_disk),
                forall|p: &str| call_requires(*on_disk_check, (p,)),
            decreases usize::MAX - j,
        {
            let path = match self.candidate_path(parts, j) {
                Some(p) => p,
                None => return Err(ImgbbError::NamesExhausted),
            };
            let asked = path.as_str();
            let found = on_disk_check(asked);
            proof {
                on_disk = on_disk.push(found);
            }
            if self.take_candidate(path.as_str(), found) {
                assert(first_free(g0, stem, ext, on_disk, Ok::<String, ImgbbError>(path))) by {
                    assert forall|k: int| 0 <= k < j implies (#[trigger] candidate(
                        g0,
                        stem,
                        ext,
                        k,
                    ) matches Some(p) && is_taken(g0, p, on_disk[k])) by {
                        assert(candidate(g0, stem, ext, k) is Some);
                    }
                }
                return Ok(path);
            }
            assert(all_taken(g0, stem, ext, on_disk, j + 1)) by {
                assert forall|k: int| 0 <= k < j + 1 implies (#[trigger] candidate(
                    g0,
                    stem,
                    ext,
                    k,
                ) matches Some(p) && is_taken(g0, p, on_disk[k])) by {
                    if k < j {
                        assert(candidate(g0, stem, ext, k) is Some);
                    }
                }
            }
            if j == usize::MAX {
                assert(first_free(g0, stem, ext, on_disk, Err::<String, ImgbbError>(ImgbbError::NamesExhausted)));
                return Err(ImgbbError::NamesExhausted);
            }
            j = j + 1;
        }
    }

    /// Fills the pattern in with the next numbers until a name is free; refused when a
    /// filled-in name cleans to nothing.
    fn next_count_path<F: Fn(&str) -> bool>(&mut self, parts: &FileNameParts, on_disk_check: &F) -> (r: Result<String, ImgbbError>)
        requires
            forall|p: &str| call_requires(*on_disk_check, (p,)),
            old(self).mode_view() is CountPattern,
        ensures
            exists|on_disk: Seq<bool>|
                #[trigger] first_free(
                    *old(self),
                    parts.stem@,
                    crate::url::opt_text(parts.extension),
                    on_disk,
                    r,
                ) && final(self).next_count_view() == count_after(*old(self), on_disk, r)
                    && answered_all(
                    *on_disk_check,
                    *old(self),
                    parts.stem@,
                    crate::url::opt_text(parts.extension),
                    on_disk,
                ),
            naming_step(*old(self), *final(self), handed_out(r)),
            final(self).directory_view() == old(self).directory_view(),
            final(self).album_view() == old(self).album_view(),
            final(self).mode_view() == old(self).mode_view(),
    {
        let ghost g0 = *self;
        let ghost stem = parts.stem@;
        let ghost ext = crate::url::opt_text(parts.extension);
        let ghost mut on_disk: Seq<bool> = Seq::empty();
        loop
            invariant
                g0 == *old(self),
                g0.mode_view() is CountPattern,
                stem == parts.stem@,
                ext == crate::url::opt_text(parts.extension),
                self.directory_view() == g0.directory_view(),
                self.album_view() == g0.album_view(),
                self.mode_view() == g0.mode_view(),
                self.occupied_view() == g0.occupied_view(),
                g0.next_count_view() <= self.next_count_view(),
                on_disk.len() == self.next_count_view() - g0.next_count_view(),
                all_taken(g0, stem, ext, on_disk, on_disk.len() as int),
                answered_all(*on_disk_check, g0, stem, ext, on_disk),
                forall|p: &str| call_requires(*on_disk_check, (p,)),
            decreases usize::MAX - self.next_count,
        {
            let count = self.next_count;
            if count == usize::MAX {
                assert(first_free(g0, stem, ext, on_disk, Err::<String, ImgbbError>(ImgbbError::NamesExhausted)));
                return Err(ImgbbError::NamesExhausted);
            }
            let offered = self.candidate_path(parts, 0);
            assert(candidate(*self, stem, ext, 0) == candidate(g0, stem, ext, on_disk.len() as int));
            self.next_count = count + 1;
            let path = match offered {
                Some(p) => p,
                None => {
                    assert(first_free(
                        g0,
                        stem,
                        ext,
                        on_disk,
                        Err::<String, ImgbbError>(ImgbbError::EmptyRenderedName),
                    ));
                    return Err(ImgbbError::EmptyRenderedName);
                },
            };
            let asked = path.as_str();
            let found = on_disk_check(asked);
            let ghost before = on_disk;
            proof {
                on_disk = on_disk.push(found);
            }
            if self.take_candidate(path.as_str(), found) {
                assert(first_free(g0, stem, ext, on_disk, Ok::<String, ImgbbError>(path))) by {
                    assert forall|k: int| 0 <= k < before.len() implies (#[trigger] candidate(
                        g0,
                        stem,
                        ext,
                        k,
                    ) matches Some(p) && is_taken(g0, p, on_disk[k])) by {
                        assert(candidate(g0, stem, ext, k) is Some);
                        assert(on_disk[k] == before[k]);
                    }
                }
                return Ok(path);
            }
            assert(all_taken(g0, stem, ext, on_disk, on_disk.len() as int)) by {
                assert forall|k: int| 0 <= k < on_disk.len() implies (#[trigger] candidate(
                    g0,
                    stem,
                    ext,
                    k,
                ) matches Some(p) && is_taken(g0, p, on_disk[k])) by {
                    if k < before.len() {
                        assert(candidate(g0, stem, ext, k) is Some);
                        assert(on_disk[k] == before[k]);
                    }
                }
            }
        }
    }
}

impl AlbumFileNameMode {
    /// Whether the mode keeps the original names.
    pub fn is_preserve_original(&self) -> (b: bool)
        ensures
            b == (*self == AlbumFileNameMode::PreserveOriginal),
    {
        match self {
            AlbumFileNameMode::PreserveOriginal => true,
            AlbumFileNameMode::CountPattern(_) => false,
        }
    }
}

} // verus!
