//! Writing files to the file store, and having them expire.

use vstd::prelude::*;

use crate::keys::begins_with;
use crate::protocol::{
    Effect, EffectView, LifecycleRequest, LifecycleRequestView, Next, NextView, Reply, ReplyView,
};
use crate::text::{
    digit_char, numeral, numeral_characters, numeral_start, numerals_are_distinct, occurs,
    stands_at, write_numeral,
};
use crate::types::{FileStore, FileStoreView};

verus! {

/// The days after which files are asked to expire.
pub const LIFECYCLE_DAYS: u32 = 5;

/// How the configuration starts.
pub open spec fn xml_head() -> Seq<char> {
    r#"<?xml version="1.0" encoding="UTF-8"?>"#@
}

/// How the configuration ends.
pub open spec fn xml_tail() -> Seq<char> {
    "</LifecycleConfiguration>"@
}

/// The element with the name of the rule for some days.
pub open spec fn id_element(days: u32) -> Seq<char> {
    "<ID>ExpireObjectsAfter"@ + numeral(days as nat, 10) + "Days</ID>"@
}

/// The element with the number of days.
pub open spec fn days_element(days: u32) -> Seq<char> {
    "<Days>"@ + numeral(days as nat, 10) + "</Days>"@
}

/// What stands between the start and the name of the rule.
pub open spec fn xml_opening() -> Seq<char> {
    r#"
    <LifecycleConfiguration>
        <Rule>
            "#@
}

/// What stands between the name of the rule and the number of days.
pub open spec fn xml_middle() -> Seq<char> {
    r#"
            <Status>Enabled</Status>
            <Filter>
                <Prefix>your-object-prefix/</Prefix>
            </Filter>
            <Expiration>
                "#@
}

/// What stands between the number of days and the end.
pub open spec fn xml_closing() -> Seq<char> {
    r#"
            </Expiration>
        </Rule>
    "#@
}

/// The configuration that has files expire after some days.
pub open spec fn lifecycle_xml(days: u32) -> Seq<char> {
    xml_head() + xml_opening() + id_element(days) + xml_middle() + days_element(days)
        + xml_closing() + xml_tail()
}

/// Writes the configuration that has files expire after some days.
pub fn get_lifecycle_xml(days: u32) -> (r: String)
    ensures
        r@ == lifecycle_xml(days),
{
    let n = write_numeral(days as u128, 10);
    let id = "<ID>ExpireObjectsAfter".to_owned().concat(n.as_str()).concat("Days</ID>");
    let expiry = "<Days>".to_owned().concat(n.as_str()).concat("</Days>");
    r#"<?xml version="1.0" encoding="UTF-8"?>"#.to_owned().concat(
        r#"
    <LifecycleConfiguration>
        <Rule>
            "#,
    ).concat(id.as_str()).concat(
        r#"
            <Status>Enabled</Status>
            <Filter>
                <Prefix>your-object-prefix/</Prefix>
            </Filter>
            <Expiration>
                "#,
    ).concat(expiry.as_str()).concat(
        r#"
            </Expiration>
        </Rule>
    "#,
    ).concat("</LifecycleConfiguration>")
}

/// Whether the two characters stand in `s` at `i`, one behind the other.
spec fn pair_at(s: Seq<char>, a: char, b: char, i: int) -> bool {
    0 <= i < s.len() - 1 && s[i] == a && s[i + 1] == b
}

/// Whether the two characters stand nowhere in `s` one behind the other.
spec fn free_of(s: Seq<char>, a: char, b: char) -> bool {
    forall|i: int| !#[trigger] pair_at(s, a, b, i)
}

/// Where the pair stands neither in two texts nor across the seam, it does not stand in both
/// behind one another.
proof fn lemma_free_seam(s: Seq<char>, t: Seq<char>, a: char, b: char)
    requires
        s.len() > 0,
        t.len() > 0,
        free_of(s, a, b),
        free_of(t, a, b),
        !(s.last() == a && t[0] == b),
    ensures
        free_of(s + t, a, b),
{
    let u = s + t;
    assert forall|i: int| !#[trigger] pair_at(u, a, b, i) by {
        if 0 <= i < u.len() - 1 {
            if i < s.len() - 1 {
                assert(!pair_at(s, a, b, i));
            } else if i >= s.len() {
                assert(!pair_at(t, a, b, i - s.len()));
            }
        }
    }
}

/// What stands before the name of the rule is free of a pair.
proof fn lemma_start_is_free(a: char, b: char)
    requires
        (a == 'O' && b == 'b') || (a == '<' && b == 'D'),
    ensures
        (xml_head() + xml_opening()).len() > 1,
        (xml_head() + xml_opening()).last() == ' ',
        free_of(xml_head() + xml_opening(), a, b),
{
    reveal_strlit(r#"<?xml version="1.0" encoding="UTF-8"?>"#);
    reveal_strlit(
        r#"
    <LifecycleConfiguration>
        <Rule>
            "#,
    );
    assert(free_of(xml_head(), a, b));
    assert(free_of(xml_opening(), a, b));
    lemma_free_seam(xml_head(), xml_opening(), a, b);
}

/// What stands between the name of the rule and the number of days is free of a pair.
proof fn lemma_middle_is_free(a: char, b: char)
    requires
        (a == 'O' && b == 'b') || (a == '<' && b == 'D'),
    ensures
        xml_middle().len() > 1,
        xml_middle()[0] == '\n',
        xml_middle().last() == ' ',
        free_of(xml_middle(), a, b),
{
    reveal_strlit(
        r#"
            <Status>Enabled</Status>
            <Filter>
                <Prefix>your-object-prefix/</Prefix>
            </Filter>
            <Expiration>
                "#,
    );
}

/// What stands behind the number of days is free of a pair.
proof fn lemma_end_is_free(a: char, b: char)
    requires
        (a == 'O' && b == 'b') || (a == '<' && b == 'D'),
    ensures
        (xml_closing() + xml_tail()).len() > 1,
        (xml_closing() + xml_tail())[0] == '\n',
        free_of(xml_closing() + xml_tail(), a, b),
{
    reveal_strlit(
        r#"
            </Expiration>
        </Rule>
    "#,
    );
    reveal_strlit("</LifecycleConfiguration>");
    assert(free_of(xml_closing(), a, b));
    assert(free_of(xml_tail(), a, b));
    lemma_free_seam(xml_closing(), xml_tail(), a, b);
}

/// A number between two pieces that are free of a pair, neither of which a digit is part of.
proof fn lemma_number_is_free(s: Seq<char>, days: u32, t: Seq<char>, a: char, b: char)
    requires
        s.len() > 0,
        t.len() > 0,
        free_of(s, a, b),
        free_of(t, a, b),
        s.last() != a,
        a == 'O' || a == '<',
    ensures
        (s + numeral(days as nat, 10) + t).len() > 0,
        (s + numeral(days as nat, 10) + t)[0] == s[0],
        (s + numeral(days as nat, 10) + t).last() == t.last(),
        free_of(s + numeral(days as nat, 10) + t, a, b),
{
    let n = numeral(days as nat, 10);
    numeral_start(days as nat, 10);
    numeral_characters(days as nat, 10);
    assert forall|i: int| 0 <= i < n.len() implies n[i] != a by {
        let d = choose|d: int| 0 <= d < 16 && #[trigger] digit_char(d) == #[trigger] n[i];
        reveal_strlit("0123456789abcdef");
        assert(digit_char(d) != a);
    }
    assert(free_of(n, a, b)) by {
        assert forall|i: int| !#[trigger] pair_at(n, a, b, i) by {
            if 0 <= i < n.len() - 1 {
                assert(n[i] != a);
            }
        }
    }
    lemma_free_seam(s, n, a, b);
    assert((s + n).last() == n.last());
    lemma_free_seam(s + n, t, a, b);
}

/// The element with the number of days is free of the pair that marks the name of the rule.
proof fn lemma_days_element_is_free(days: u32)
    ensures
        days_element(days).len() > 0,
        days_element(days)[0] == '<',
        days_element(days).last() == '>',
        free_of(days_element(days), 'O', 'b'),
{
    reveal_strlit("<Days>");
    reveal_strlit("</Days>");
    assert(free_of("<Days>"@, 'O', 'b'));
    assert(free_of("</Days>"@, 'O', 'b'));
    lemma_number_is_free("<Days>"@, days, "</Days>"@, 'O', 'b');
}

/// The element with the name of the rule is free of the pair that marks the number of days.
proof fn lemma_id_element_is_free(days: u32)
    ensures
        id_element(days).len() > 0,
        id_element(days)[0] == '<',
        id_element(days).last() == '>',
        free_of(id_element(days), '<', 'D'),
{
    reveal_strlit("<ID>ExpireObjectsAfter");
    reveal_strlit("Days</ID>");
    assert(free_of("<ID>ExpireObjectsAfter"@, '<', 'D'));
    assert(free_of("Days</ID>"@, '<', 'D'));
    lemma_number_is_free("<ID>ExpireObjectsAfter"@, days, "Days</ID>"@, '<', 'D');
}

/// Whether a text ends with another.
pub open spec fn ends_with(s: Seq<char>, suffix: Seq<char>) -> bool {
    s.len() >= suffix.len() && s.skip(s.len() - suffix.len()) == suffix
}

/// Whether `needle` stands in `hay` at one place and no other.
pub open spec fn stands_once(hay: Seq<char>, needle: Seq<char>) -> bool {
    exists|i: int|
        #![trigger stands_at(hay, needle, i)]
        stands_at(hay, needle, i) && forall|j: int| #[trigger]
            stands_at(hay, needle, j) ==> j == i
}

/// A text marked by a pair stands once between two texts that are free of the pair.
proof fn lemma_stands_once(
    before: Seq<char>,
    needle: Seq<char>,
    after: Seq<char>,
    a: char,
    b: char,
    at: int,
)
    requires
        before.len() > 0,
        after.len() > 0,
        free_of(before, a, b),
        free_of(after, a, b),
        pair_at(needle, a, b, at),
        forall|i: int| #[trigger] pair_at(needle, a, b, i) ==> i == at,
        before.last() != a,
        after[0] != b,
    ensures
        stands_once(before + needle + after, needle),
{
    let hay = before + needle + after;
    let i = before.len() as int;
    assert(hay.subrange(i, i + needle.len()) =~= needle);
    assert(stands_at(hay, needle, i));
    assert forall|j: int| #[trigger] stands_at(hay, needle, j) implies j == i by {
        let piece = hay.subrange(j, j + needle.len());
        let k = j + at;
        assert(piece[at] == hay[k] && piece[at + 1] == hay[k + 1]);
        if k < i - 1 {
            assert(!pair_at(before, a, b, k));
        } else if k >= i && k < i + needle.len() - 1 {
            assert(pair_at(needle, a, b, k - i));
        } else if k >= i + needle.len() {
            assert(!pair_at(after, a, b, k - i - needle.len()));
        }
    }
}

/// The configuration starts and ends as an XML document of its kind does, and holds the number of
/// days in one name of a rule and in one element of its own.
pub proof fn lifecycle_names_its_days_once(days: u32)
    ensures
        begins_with(lifecycle_xml(days), xml_head()),
        ends_with(lifecycle_xml(days), xml_tail()),
        stands_once(lifecycle_xml(days), id_element(days)),
        stands_once(lifecycle_xml(days), days_element(days)),
{
    let x = lifecycle_xml(days);
    let id = id_element(days);
    let element = days_element(days);
    let start = xml_head() + xml_opening();
    let end = xml_closing() + xml_tail();
    assert(x.take(xml_head().len() as int) =~= xml_head());
    assert(x.skip(x.len() - xml_tail().len()) =~= xml_tail());
    lemma_id_element_is_free(days);
    lemma_days_element_is_free(days);
    lemma_start_is_free('O', 'b');
    lemma_start_is_free('<', 'D');
    lemma_middle_is_free('O', 'b');
    lemma_middle_is_free('<', 'D');
    lemma_end_is_free('O', 'b');
    lemma_end_is_free('<', 'D');

    let after = xml_middle() + element + end;
    lemma_free_seam(xml_middle(), element, 'O', 'b');
    lemma_free_seam(xml_middle() + element, end, 'O', 'b');
    lemma_id_mark(days);
    lemma_stands_once(start, id, after, 'O', 'b', 10);
    assert(x =~= start + id + after);

    let before = start + id + xml_middle();
    lemma_free_seam(start, id, '<', 'D');
    lemma_free_seam(start + id, xml_middle(), '<', 'D');
    lemma_days_mark(days);
    lemma_stands_once(before, element, end, '<', 'D', 0);
    assert(x =~= before + element + end);
}

/// The pair that marks the name of the rule stands in it once.
proof fn lemma_id_mark(days: u32)
    ensures
        pair_at(id_element(days), 'O', 'b', 10),
        forall|i: int| #[trigger] pair_at(id_element(days), 'O', 'b', i) ==> i == 10,
{
    reveal_strlit("<ID>ExpireObjectsAfter");
    reveal_strlit("Days</ID>");
    let open = "<ID>ExpireObjectsAfter"@;
    let n = numeral(days as nat, 10);
    let id = id_element(days);
    let close = "Days</ID>"@;
    assert(free_of(close, 'O', 'b'));
    lemma_number_is_free(close, days, close, 'O', 'b');
    let rest = close + n + close;
    assert forall|i: int| #[trigger] pair_at(id, 'O', 'b', i) implies i == 10 by {
        if i >= open.len() {
            let j = i - open.len() + close.len();
            assert(rest[j] == id[i] && rest[j + 1] == id[i + 1]);
            assert(!pair_at(rest, 'O', 'b', j));
        } else if i < open.len() - 1 {
            assert(pair_at(open, 'O', 'b', i));
        }
    }
}

/// The pair that marks the number of days stands in its element once.
proof fn lemma_days_mark(days: u32)
    ensures
        pair_at(days_element(days), '<', 'D', 0),
        forall|i: int| #[trigger] pair_at(days_element(days), '<', 'D', i) ==> i == 0,
{
    reveal_strlit("<Days>");
    reveal_strlit("</Days>");
    let open = "<Days>"@;
    let n = numeral(days as nat, 10);
    let element = days_element(days);
    let close = "</Days>"@;
    assert(free_of(close, '<', 'D'));
    lemma_number_is_free(close, days, close, '<', 'D');
    let rest = close + n + close;
    assert forall|i: int| #[trigger] pair_at(element, '<', 'D', i) implies i == 0 by {
        if i >= open.len() {
            let j = i - open.len() + close.len();
            assert(rest[j] == element[i] && rest[j + 1] == element[i + 1]);
            assert(!pair_at(rest, '<', 'D', j));
        } else if i < open.len() - 1 {
            assert(pair_at(open, '<', 'D', i));
        }
    }
}

/// Configurations for different days differ.
pub proof fn lifecycles_tell_their_days(a: u32, b: u32)
    ensures
        lifecycle_xml(a) == lifecycle_xml(b) <==> a == b,
{
    let x = lifecycle_xml(a);
    let y = lifecycle_xml(b);
    let m = numeral(a as nat, 10);
    let n = numeral(b as nat, 10);
    if x == y {
        let at = (xml_head() + xml_opening() + "<ID>ExpireObjectsAfter"@).len() as int;
        assert(x.len() == y.len());
        assert(m.len() == n.len());
        assert(x.subrange(at, at + m.len()) =~= m);
        assert(y.subrange(at, at + n.len()) =~= n);
        numerals_are_distinct(a as nat, b as nat, 10);
    }
}

/// The request to expire the files of a bucket. The days are always the same ones, whatever
/// expiration the store is set up with.
pub open spec fn lifecycle_of(files: FileStoreView) -> LifecycleRequestView {
    LifecycleRequestView {
        url: files.url + "/"@ + files.bucket + "?lifecycle"@,
        user: files.user,
        pass: files.pass,
        content_type: "application/xml"@,
        body: lifecycle_xml(LIFECYCLE_DAYS),
    }
}

/// The request to expire the files of a bucket.
pub fn set_lifecycle_policy(files: &FileStore) -> (r: LifecycleRequest)
    ensures
        r@ == lifecycle_of(files@),
        r.url@ == files.url@ + "/"@ + files.bucket@ + "?lifecycle"@,
        r.user@ == files.user@,
        r.pass@ == files.pass@,
        r.content_type@ == "application/xml"@,
{
    LifecycleRequest {
        url: files.url.clone().concat("/").concat(files.bucket.as_str()).concat("?lifecycle"),
        user: files.user.clone(),
        pass: files.pass.clone(),
        content_type: "application/xml".to_owned(),
        body: get_lifecycle_xml(LIFECYCLE_DAYS),
    }
}

/// Where the writing of a file stands.
#[derive(Debug, Clone, Copy, PartialEq, Eq, Structural)]
pub enum WritePhase {
    /// Connecting to the store.
    Opening,
    /// Writing the file.
    Uploading,
    /// Asking for expiry.
    Expiring,
}

/// The writing of a file.
#[derive(Debug)]
pub struct WriteRun {
    pub files: FileStore,
    pub name: String,
    pub data: Vec<u8>,
    pub phase: WritePhase,
}

pub struct WriteView {
    pub files: FileStoreView,
    pub name: Seq<char>,
    pub data: Seq<u8>,
    pub phase: WritePhase,
}

impl View for WriteRun {
    type V = WriteView;

    open spec fn view(&self) -> WriteView {
        WriteView {
            files: self.files@,
            name: self.name@,
            data: self.data@,
            phase: self.phase,
        }
    }
}

/// The start of the writing of a file.
pub open spec fn write_start<N>(files: FileStoreView, name: Seq<char>, data: Seq<u8>) -> NextView<
    WriteView,
    N,
    bool,
> {
    NextView::Ask(
        WriteView { files, name, data, phase: WritePhase::Opening },
        EffectView::OpenFiles(files),
    )
}

/// The writing of a file after a reply. The result says whether all went well; a file that is
/// refused is a fault.
pub open spec fn write_next<N>(s: WriteView, r: ReplyView<N>) -> NextView<WriteView, N, bool> {
    match s.phase {
        WritePhase::Opening => match r {
            ReplyView::Done => NextView::Ask(
                WriteView { phase: WritePhase::Uploading, ..s },
                EffectView::PutFile { bucket: s.files.bucket, name: s.name, data: s.data },
            ),
            _ => NextView::Finish(false),
        },
        WritePhase::Uploading => match r {
            ReplyView::Done => NextView::Ask(
                WriteView { phase: WritePhase::Expiring, ..s },
                EffectView::PutLifecycle(lifecycle_of(s.files)),
            ),
            _ => NextView::Halt("Failed to upload file"@),
        },
        WritePhase::Expiring => match r {
            ReplyView::Done => NextView::Finish(true),
            _ => NextView::Finish(false),
        },
    }
}

/// Starts to write a file.
pub fn write_file_fs<N>(files: FileStore, name: String, data: Vec<u8>) -> (r: Next<
    WriteRun,
    N,
    bool,
>)
    ensures
        r@ == write_start::<N>(files@, name@, data@),
{
    let effect = Effect::OpenFiles(files.clone());
    Next::Ask(WriteRun { files, name, data, phase: WritePhase::Opening }, effect)
}

impl WriteRun {
    /// Goes on with a reply.
    pub fn step<N>(self, reply: Reply<N>) -> (r: Next<WriteRun, N, bool>)
        ensures
            r@ == write_next(self@, reply@),
    {
        match self.phase {
            WritePhase::Opening => match reply {
                Reply::Done => {
                    let data = self.data.clone();
                    assert(data@ =~= self.data@);
                    let effect = Effect::PutFile {
                        bucket: self.files.bucket.clone(),
                        name: self.name.clone(),
                        data,
                    };
                    Next::Ask(
                        WriteRun {
                            files: self.files,
                            name: self.name,
                            data: self.data,
                            phase: WritePhase::Uploading,
                        },
                        effect,
                    )
                },
                _ => Next::Finish(false),
            },
            WritePhase::Uploading => match reply {
                Reply::Done => {
                    let effect = Effect::PutLifecycle(set_lifecycle_policy(&self.files));
                    Next::Ask(
                        WriteRun {
                            files: self.files,
                            name: self.name,
                            data: self.data,
                            phase: WritePhase::Expiring,
                        },
                        effect,
                    )
                },
                _ => Next::Halt("Failed to upload file".to_owned()),
            },
            WritePhase::Expiring => match reply {
                Reply::Done => Next::Finish(true),
                _ => Next::Finish(false),
            },
        }
    }
}

/// The request to expire files goes to the bucket of the store, with the user and the password of
/// the store, and asks for five days in each place where it names them.
pub proof fn files_are_asked_to_expire_in_five_days(files: FileStoreView)
    ensures
        lifecycle_of(files).url == files.url + "/"@ + files.bucket + "?lifecycle"@,
        lifecycle_of(files).user == files.user,
        lifecycle_of(files).pass == files.pass,
        lifecycle_of(files).content_type == "application/xml"@,
        stands_once(lifecycle_of(files).body, "<Days>5</Days>"@),
        stands_once(lifecycle_of(files).body, "<ID>ExpireObjectsAfter5Days</ID>"@),
        occurs(lifecycle_of(files).body, "<Status>Enabled</Status>"@),
        begins_with(lifecycle_of(files).body, r#"<?xml version="1.0" encoding="UTF-8"?>"#@),
        ends_with(lifecycle_of(files).body, "</LifecycleConfiguration>"@),
{
    lifecycle_names_its_days_once(5);
    reveal_strlit("0123456789abcdef");
    reveal_strlit("<Days>");
    reveal_strlit("</Days>");
    reveal_strlit("<Days>5</Days>");
    reveal_strlit("<ID>ExpireObjectsAfter");
    reveal_strlit("Days</ID>");
    reveal_strlit("<ID>ExpireObjectsAfter5Days</ID>");
    assert(days_element(5) =~= "<Days>5</Days>"@);
    assert(id_element(5) =~= "<ID>ExpireObjectsAfter5Days</ID>"@);
    reveal_strlit("<Status>Enabled</Status>");
    reveal_strlit(
        r#"
            <Status>Enabled</Status>
            <Filter>
                <Prefix>your-object-prefix/</Prefix>
            </Filter>
            <Expiration>
                "#,
    );
    let needle = "<Status>Enabled</Status>"@;
    let at = (xml_head() + xml_opening() + id_element(5)).len() as int + 13;
    let x = lifecycle_xml(5);
    let end = at + needle.len() as int;
    assert(x.subrange(at, end) =~= needle) by {
        assert(xml_middle().subrange(13, 13 + needle.len() as int) =~= needle);
        assert forall|i: int| 0 <= i < needle.len() implies x.subrange(at, end)[i]
            == needle[i] by {
            assert(x[at + i] == xml_middle()[13 + i]);
        }
    }
    assert(stands_at(x, needle, at));
}

/// Configurations for different days are the same but for the number of days, which stands in
/// each at two places, as it is written in decimal.
pub proof fn configurations_differ_in_their_days_alone(a: u32, b: u32)
    ensures
        exists|head: Seq<char>, middle: Seq<char>, tail: Seq<char>|
            lifecycle_xml(a) == #[trigger] (head + numeral(a as nat, 10) + middle + numeral(
                a as nat,
                10,
            ) + tail) && lifecycle_xml(b) == head + numeral(b as nat, 10) + middle + numeral(
                b as nat,
                10,
            ) + tail,
{
    let head = xml_head() + xml_opening() + "<ID>ExpireObjectsAfter"@;
    let middle = "Days</ID>"@ + xml_middle() + "<Days>"@;
    let tail = "</Days>"@ + xml_closing() + xml_tail();
    let m = numeral(a as nat, 10);
    let n = numeral(b as nat, 10);
    assert(lifecycle_xml(a) =~= head + m + middle + m + tail);
    assert(lifecycle_xml(b) =~= head + n + middle + n + tail);
}

/// A file is written whole, under its name and into the bucket of its store, once the store is
/// open; then the files of the bucket are asked to expire. The writing went well exactly where all
/// of this did, and a file that is refused is a fault.
pub proof fn files_are_written_whole<N>(
    files: FileStoreView,
    name: Seq<char>,
    data: Seq<u8>,
    s: WriteView,
    r: ReplyView<N>,
)
    ensures
        write_start::<N>(files, name, data) matches NextView::Ask(t, EffectView::OpenFiles(f)) && f
            == files && t.files == files && t.name == name && t.data == data && t.phase
            == WritePhase::Opening,
        write_next(s, r) matches NextView::Ask(t, e) ==> {
            &&& r is Done
            &&& t.files == s.files
            &&& t.name == s.name
            &&& t.data == s.data
            &&& s.phase == WritePhase::Opening || s.phase == WritePhase::Uploading
            &&& s.phase == WritePhase::Opening ==> t.phase == WritePhase::Uploading && (
            e matches EffectView::PutFile { bucket, name: n, data: d } && bucket == s.files.bucket
                && n == s.name && d == s.data)
            &&& s.phase == WritePhase::Uploading ==> t.phase == WritePhase::Expiring && e
                is PutLifecycle
        },
        r is Done && s.phase != WritePhase::Expiring ==> write_next(s, r) is Ask,
        s.phase == WritePhase::Expiring ==> (write_next(s, r) matches NextView::Finish(well) && (
        well <==> r is Done)),
        s.phase == WritePhase::Opening && !(r is Done) ==> (write_next(s, r) matches
        NextView::Finish(well) && !well),
        s.phase == WritePhase::Uploading && !(r is Done) ==> write_next(s, r) is Halt,
{
}

} // verus!
