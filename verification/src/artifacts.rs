//! Input media files and the artifact paths derived from them.
//!
//! Every artifact of one input lives next to it and is named by replacing the
//! input's extension, or, for the final output, by appending a suffix to its
//! stem. The names depend on the input path alone.

use vstd::prelude::*;
use vstd::string::*;
use crate::path::{
    directory, extension, file_name, has_extension_named, is_last_index_of,
    lemma_directory_of_extended, lemma_last_index_of, lemma_last_index_unique, lemma_path_parts,
    name_start, siblings, stem_path,
};

verus! {

/// The extension that marks a file as input media.
pub open spec fn input_extension() -> Seq<char> {
    "mkv"@
}

/// Whether `p` names an input media file: its extension is exactly the input
/// extension, case preserved.
pub open spec fn is_media_path(p: Seq<char>) -> bool {
    extension(p) == Some(input_extension())
}

/// What follows the stem of the input in each derived name, in the order of
/// `ArtifactNames::all`, with the input's own ending last.
pub open spec fn endings() -> Seq<Seq<char>> {
    seq![".opus"@, ".xml"@, ".stats"@, ".ivf"@, "-out.mkv"@, ".wav"@, ".y4m"@, ".mkv"@]
}

/// The artifact paths of one input, as character sequences.
pub struct ArtifactNames {
    /// The encoded audio track.
    pub audio: Seq<char>,
    /// The extracted chapter markup.
    pub chapters: Seq<char>,
    /// The statistics that the first video pass leaves for the second.
    pub stats: Seq<char>,
    /// The encoded video bitstream.
    pub bitstream: Seq<char>,
    /// The final container, the one artifact that is kept.
    pub output: Seq<char>,
    /// The decoded audio, written only when stages are chained by files.
    pub raw_audio: Seq<char>,
    /// The decoded video, written only when stages are chained by files.
    pub raw_video: Seq<char>,
}

impl ArtifactNames {
    /// All seven paths, in field order.
    pub open spec fn all(self) -> Seq<Seq<char>> {
        seq![
            self.audio,
            self.chapters,
            self.stats,
            self.bitstream,
            self.output,
            self.raw_audio,
            self.raw_video,
        ]
    }
}

/// The artifact paths that belong to the input path `input`.
pub open spec fn artifacts_of(input: Seq<char>) -> ArtifactNames {
    let stem = stem_path(input);
    ArtifactNames {
        audio: stem + ".opus"@,
        chapters: stem + ".xml"@,
        stats: stem + ".stats"@,
        bitstream: stem + ".ivf"@,
        output: stem + "-out.mkv"@,
        raw_audio: stem + ".wav"@,
        raw_video: stem + ".y4m"@,
    }
}

proof fn lemma_endings()
    ensures
        endings().len() == 8,
        endings().no_duplicates(),
        forall|i: int, j: int|
            0 <= i < 8 && 0 <= j < endings()[i].len() ==> #[trigger] endings()[i][j] != '/',
        endings()[7] == seq!['.'] + input_extension(),
{
    reveal_strlit(".opus");
    reveal_strlit(".xml");
    reveal_strlit(".stats");
    reveal_strlit(".ivf");
    reveal_strlit("-out.mkv");
    reveal_strlit(".wav");
    reveal_strlit(".y4m");
    reveal_strlit(".mkv");
    reveal_strlit("mkv");
    let e = endings();
    assert(e[0].len() == 5 && e[2].len() == 6 && e[4].len() == 8);
    assert(e[1].len() == 4 && e[1][1] == 'x');
    assert(e[3].len() == 4 && e[3][1] == 'i');
    assert(e[5].len() == 4 && e[5][1] == 'w');
    assert(e[6].len() == 4 && e[6][1] == 'y');
    assert(e[7].len() == 4 && e[7][1] == 'm');
    assert(e[7] =~= seq!['.'] + input_extension());
}

/// A media path is its stem path followed by a dot and the input extension.
pub proof fn lemma_media_path(input: Seq<char>)
    requires
        is_media_path(input),
    ensures
        input == stem_path(input) + ".mkv"@,
        stem_path(input) == input.take(input.len() - 4),
        0 <= name_start(input) < input.len() - 4,
{
    lemma_path_parts(input);
    lemma_endings();
    lemma_last_index_of(input, '.');
    lemma_last_index_of(input, '/');
    reveal_strlit("mkv");
}

/// The artifact paths of a media file are pairwise distinct, none of them is
/// the input path, and each names an entry of the input's own directory.
pub proof fn law_artifacts_are_distinct_siblings(input: Seq<char>)
    requires
        is_media_path(input),
    ensures
        artifacts_of(input).all().no_duplicates(),
        !artifacts_of(input).all().contains(input),
        forall|i: int|
            0 <= i < 7 ==> siblings(#[trigger] artifacts_of(input).all()[i], input),
{
    lemma_endings();
    lemma_media_path(input);
    let stem = stem_path(input);
    let all = artifacts_of(input).all();
    let e = endings();
    assert(input == stem + e[7]);
    assert forall|i: int| 0 <= i < 7 implies #[trigger] all[i] == stem + e[i] by {}
    assert forall|i: int, j: int| 0 <= i < 8 && 0 <= j < 8 && i != j implies stem + e[i] != stem
        + e[j] by {
        assert((stem + e[i]).skip(stem.len() as int) =~= e[i]);
        assert((stem + e[j]).skip(stem.len() as int) =~= e[j]);
    }
    assert forall|i: int| 0 <= i < 7 implies siblings(#[trigger] all[i], input) by {
        assert forall|j: int| 0 <= j < e[i].len() implies e[i][j] != '/' by {}
        lemma_directory_of_extended(input, input.len() - 4, e[i]);
    }
}

/// The last character of `text` but `k`.
spec fn from_end(text: Seq<char>, k: int) -> char {
    text[text.len() - 1 - k]
}

/// No two of the seven artifact endings can close one and the same text:
/// counted from the end, they differ in the last character or the one before.
proof fn lemma_endings_close_apart()
    ensures
        forall|i: int|
            0 <= i < 7 ==> (#[trigger] endings()[i]).len() >= 4,
        forall|i: int, j: int|
            0 <= i < 7 && 0 <= j < 7 && i != j ==> from_end(#[trigger] endings()[i], 0)
                != from_end(#[trigger] endings()[j], 0) || from_end(endings()[i], 1) != from_end(
                endings()[j],
                1,
            ),
{
    reveal_strlit(".opus");
    reveal_strlit(".xml");
    reveal_strlit(".stats");
    reveal_strlit(".ivf");
    reveal_strlit("-out.mkv");
    reveal_strlit(".wav");
    reveal_strlit(".y4m");
    let e = endings();
    assert(e[0].len() == 5 && from_end(e[0], 0) == 's' && from_end(e[0], 1) == 'u');
    assert(e[1].len() == 4 && from_end(e[1], 0) == 'l');
    assert(e[2].len() == 6 && from_end(e[2], 0) == 's' && from_end(e[2], 1) == 't');
    assert(e[3].len() == 4 && from_end(e[3], 0) == 'f');
    assert(e[4].len() == 8 && from_end(e[4], 0) == 'v' && from_end(e[4], 1) == 'k');
    assert(e[5].len() == 4 && from_end(e[5], 0) == 'v' && from_end(e[5], 1) == 'a');
    assert(e[6].len() == 4 && from_end(e[6], 0) == 'm');
}

/// The artifact paths of two different media files have no path in common:
/// every artifact belongs to the run of one input alone.
pub proof fn law_artifacts_are_exclusive(one: Seq<char>, other: Seq<char>)
    requires
        is_media_path(one),
        is_media_path(other),
        one != other,
    ensures
        forall|i: int, j: int|
            0 <= i < 7 && 0 <= j < 7 ==> #[trigger] artifacts_of(one).all()[i]
                != #[trigger] artifacts_of(other).all()[j],
{
    lemma_endings_close_apart();
    lemma_media_path(one);
    lemma_media_path(other);
    let e = endings();
    let a = stem_path(one);
    let b = stem_path(other);
    assert forall|i: int, j: int| 0 <= i < 7 && 0 <= j < 7 implies #[trigger] artifacts_of(
        one,
    ).all()[i] != #[trigger] artifacts_of(other).all()[j] by {
        let p = artifacts_of(one).all()[i];
        let q = artifacts_of(other).all()[j];
        assert(p == a + e[i]);
        assert(q == b + e[j]);
        if p == q {
            if i == j {
                assert(a =~= p.take(a.len() as int));
                assert(b =~= q.take(b.len() as int));
                assert(one == other);
            } else {
                assert(from_end(p, 0) == from_end(e[i], 0) && from_end(p, 1) == from_end(e[i], 1));
                assert(from_end(q, 0) == from_end(e[j], 0) && from_end(q, 1) == from_end(e[j], 1));
            }
        }
    }
}

/// Of the artifacts of one media file, only the final output can itself be a
/// media file: no intermediate artifact is ever mistaken for an input.
pub proof fn law_only_outputs_can_be_inputs(one: Seq<char>, other: Seq<char>)
    requires
        is_media_path(one),
        is_media_path(other),
    ensures
        forall|i: int|
            0 <= i < 7 && i != 4 ==> #[trigger] artifacts_of(one).all()[i] != other,
{
    lemma_endings_close_apart();
    lemma_media_path(one);
    lemma_media_path(other);
    reveal_strlit(".mkv");
    let e = endings();
    let a = stem_path(one);
    let closing = ".mkv"@;
    assert(closing.len() == 4 && from_end(closing, 0) == 'v' && from_end(closing, 1) == 'k');
    assert(from_end(other, 0) == from_end(closing, 0) && from_end(other, 1) == from_end(
        closing,
        1,
    ));
    reveal_strlit(".opus");
    reveal_strlit(".xml");
    reveal_strlit(".stats");
    reveal_strlit(".ivf");
    reveal_strlit(".wav");
    reveal_strlit(".y4m");
    assert forall|i: int| 0 <= i < 7 && i != 4 implies #[trigger] artifacts_of(one).all()[i]
        != other by {
        let p = artifacts_of(one).all()[i];
        assert(p == a + e[i]);
        assert(from_end(p, 0) == from_end(e[i], 0) && from_end(p, 1) == from_end(e[i], 1));
        assert(from_end(e[0], 0) == 's');
        assert(from_end(e[1], 0) == 'l');
        assert(from_end(e[2], 0) == 's');
        assert(from_end(e[3], 0) == 'f');
        assert(from_end(e[5], 1) == 'a');
        assert(from_end(e[6], 0) == 'm');
    }
}

/// Each artifact keeps the stem of the input: the six that replace the
/// extension carry their own extension on the same stem path, and the final
/// output appends `-out` to the stem and keeps the input extension.
pub proof fn law_artifacts_keep_the_stem(input: Seq<char>)
    requires
        is_media_path(input),
    ensures
        ({
            let a = artifacts_of(input);
            &&& stem_path(a.audio) == stem_path(input) && extension(a.audio) == Some("opus"@)
            &&& stem_path(a.chapters) == stem_path(input) && extension(a.chapters) == Some("xml"@)
            &&& stem_path(a.stats) == stem_path(input) && extension(a.stats) == Some("stats"@)
            &&& stem_path(a.bitstream) == stem_path(input) && extension(a.bitstream) == Some(
                "ivf"@,
            )
            &&& stem_path(a.raw_audio) == stem_path(input) && extension(a.raw_audio) == Some(
                "wav"@,
            )
            &&& stem_path(a.raw_video) == stem_path(input) && extension(a.raw_video) == Some(
                "y4m"@,
            )
            &&& stem_path(a.output) == stem_path(input) + "-out"@ && is_media_path(a.output)
        }),
{
    lemma_endings();
    lemma_media_path(input);
    let a = artifacts_of(input);
    let e = endings();
    let cut = input.len() - 4;
    reveal_strlit("opus");
    reveal_strlit("xml");
    reveal_strlit("stats");
    reveal_strlit("ivf");
    reveal_strlit("-out");
    reveal_strlit("mkv");
    reveal_strlit(".opus");
    reveal_strlit(".xml");
    reveal_strlit(".stats");
    reveal_strlit(".ivf");
    reveal_strlit("-out.mkv");
    reveal_strlit("wav");
    reveal_strlit("y4m");
    reveal_strlit(".wav");
    reveal_strlit(".y4m");
    assert(e[0] =~= seq!['.'] + "opus"@);
    assert(e[1] =~= seq!['.'] + "xml"@);
    assert(e[2] =~= seq!['.'] + "stats"@);
    assert(e[3] =~= seq!['.'] + "ivf"@);
    assert(e[5] =~= seq!['.'] + "wav"@);
    assert(e[6] =~= seq!['.'] + "y4m"@);
    lemma_replaced_extension(input, e[0], "opus"@);
    lemma_replaced_extension(input, e[1], "xml"@);
    lemma_replaced_extension(input, e[2], "stats"@);
    lemma_replaced_extension(input, e[3], "ivf"@);
    lemma_replaced_extension(input, e[5], "wav"@);
    lemma_replaced_extension(input, e[6], "y4m"@);
    // The output: the last dot sits four characters into the appended text.
    let out = a.output;
    lemma_directory_of_extended(input, cut, e[4]);
    assert(is_last_index_of(out, '.', cut + 4));
    lemma_last_index_unique(out, '.', cut + 4);
    assert(file_name(out).len() > 2);
    assert(out.skip(cut + 5) =~= "mkv"@);
    assert(out.take(cut + 4) =~= stem_path(input) + "-out"@);
}

/// Appending a dot and a dot-free, separator-free extension to the stem path
/// of a media path yields a path with that stem path and that extension.
proof fn lemma_replaced_extension(input: Seq<char>, ending: Seq<char>, ext: Seq<char>)
    requires
        is_media_path(input),
        ending == seq!['.'] + ext,
        ext.len() > 0,
        forall|j: int| 0 <= j < ext.len() ==> ext[j] != '.' && ext[j] != '/',
    ensures
        stem_path(stem_path(input) + ending) == stem_path(input),
        extension(stem_path(input) + ending) == Some(ext),
{
    lemma_media_path(input);
    let cut = input.len() - 4;
    let q = stem_path(input) + ending;
    assert forall|j: int| 0 <= j < ending.len() implies ending[j] != '/' by {
        if j > 0 {
            assert(ending[j] == ext[j - 1]);
        }
    }
    lemma_directory_of_extended(input, cut, ending);
    assert(q[cut] == ending[0]);
    assert forall|j: int| cut < j < q.len() implies q[j] != '.' by {
        assert(q[j] == ending[j - cut]);
        assert(ending[j - cut] == ext[j - cut - 1]);
    }
    assert(is_last_index_of(q, '.', cut));
    lemma_last_index_unique(q, '.', cut);
    assert(file_name(q).len() > 2);
    assert(q.skip(cut + 1) =~= ext);
    assert(q.take(cut) =~= stem_path(input));
}

/// One discovered input: a path whose extension is the input extension.
#[derive(Debug, PartialEq, Eq)]
pub struct MediaFile {
    path: String,
}

impl View for MediaFile {
    type V = Seq<char>;

    closed spec fn view(&self) -> Seq<char> {
        self.path@
    }
}

impl MediaFile {
    #[verifier::type_invariant]
    spec fn well_formed(self) -> bool {
        is_media_path(self.path@)
    }

    /// Accepts `path` as an input exactly when its extension is the input
    /// extension.
    pub fn new(path: String) -> (r: Option<MediaFile>)
        ensures
            r is Some <==> is_media_path(path@),
            r matches Some(m) ==> m@ == path@,
    {
        if has_extension_named(path.as_str(), "mkv") {
            Some(MediaFile { path })
        } else {
            None
        }
    }

    /// The path of the input.
    pub fn path(&self) -> (r: &str)
        ensures
            r@ == self@,
            is_media_path(self@),
    {
        proof {
            use_type_invariant(self);
        }
        self.path.as_str()
    }
}

/// The artifact paths of one input, derived once and owned by its run.
#[derive(Debug, PartialEq, Eq)]
pub struct ArtifactSet {
    audio: String,
    chapters: String,
    stats: String,
    bitstream: String,
    output: String,
    raw_audio: String,
    raw_video: String,
}

impl View for ArtifactSet {
    type V = ArtifactNames;

    closed spec fn view(&self) -> ArtifactNames {
        ArtifactNames {
            audio: self.audio@,
            chapters: self.chapters@,
            stats: self.stats@,
            bitstream: self.bitstream@,
            output: self.output@,
            raw_audio: self.raw_audio@,
            raw_video: self.raw_video@,
        }
    }
}

fn join(stem: &str, ending: &str) -> (r: String)
    ensures
        r@ == stem@ + ending@,
{
    String::from_str(stem).concat(ending)
}

impl ArtifactSet {
    /// Derives the artifact paths of `media` from its path alone.
    pub fn derive(media: &MediaFile) -> (set: ArtifactSet)
        ensures
            set@ == artifacts_of(media@),
            is_media_path(media@),
    {
        let path = media.path();
        let n: usize = path.unicode_len();
        proof {
            lemma_media_path(path@);
        }
        let stem = path.substring_char(0, n - 4);
        ArtifactSet {
            audio: join(stem, ".opus"),
            chapters: join(stem, ".xml"),
            stats: join(stem, ".stats"),
            bitstream: join(stem, ".ivf"),
            output: join(stem, "-out.mkv"),
            raw_audio: join(stem, ".wav"),
            raw_video: join(stem, ".y4m"),
        }
    }

    /// The path of the encoded audio track.
    pub fn audio(&self) -> (r: &str)
        ensures
            r@ == self@.audio,
    {
        self.audio.as_str()
    }

    /// The path of the extracted chapter markup.
    pub fn chapters(&self) -> (r: &str)
        ensures
            r@ == self@.chapters,
    {
        self.chapters.as_str()
    }

    /// The path of the first pass's statistics.
    pub fn stats(&self) -> (r: &str)
        ensures
            r@ == self@.stats,
    {
        self.stats.as_str()
    }

    /// The path of the encoded video bitstream.
    pub fn bitstream(&self) -> (r: &str)
        ensures
            r@ == self@.bitstream,
    {
        self.bitstream.as_str()
    }

    /// The path of the final container.
    pub fn output(&self) -> (r: &str)
        ensures
            r@ == self@.output,
    {
        self.output.as_str()
    }

    /// The path of the decoded audio.
    pub fn raw_audio(&self) -> (r: &str)
        ensures
            r@ == self@.raw_audio,
    {
        self.raw_audio.as_str()
    }

    /// The path of the decoded video.
    pub fn raw_video(&self) -> (r: &str)
        ensures
            r@ == self@.raw_video,
    {
        self.raw_video.as_str()
    }
}

} // verus!
