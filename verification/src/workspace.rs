//! The files of a session's workspace, as the web editor sees them.
use vstd::prelude::*;
use vstd::utf8::encode_utf8;

use crate::paths::{
    after_counted, beginning_with, components, counted, counts, file_name, from_counted, head,
    is_abs, join_path, last_name, lies_under, parent_of, path_components, path_join,
    path_starts_with, relative, shown, strip_base, to_counted,
};
use crate::sort::{
    keyed, ordered, sort_by_key, sorted, sorting_is_stable, sorting_keeps_every_item, Keyed,
};
use crate::text::{
    before, byte_len, bytes_in, cat, cat3, from_utf8_lossy, has, join, joined, lemma_run_before,
    lossy, nothing_to_replace, opt, owned, pieces, replaced, run_before, stands_at, str_eq, texts,
};
use crate::value::{
    lemma_find, lemma_get_decreases, lemma_lookup_push, no_fields, trees, Data, Fields, Json,
};
use crate::tools::search::{entry_views, WalkEntry};
use crate::tools::web::{
    encoded_byte, encoded_bytes, encoded_texts_decode_back, url_encode, url_encoded,
};

verus! {

/// What a request is refused with.
#[derive(Debug, Clone, Copy, PartialEq, Eq, Structural)]
pub enum Refusal {
    BadRequest,
    Forbidden,
    NotFound,
    Internal,
}

impl Refusal {
    /// The HTTP status.
    pub fn code(&self) -> (r: u16)
        ensures
            r == (match self {
                Refusal::BadRequest => 400u16,
                Refusal::Forbidden => 403,
                Refusal::NotFound => 404,
                Refusal::Internal => 500,
            }),
    {
        match self {
            Refusal::BadRequest => 400,
            Refusal::Forbidden => 403,
            Refusal::NotFound => 404,
            Refusal::Internal => 500,
        }
    }
}

/// The session whose workspace is meant.
pub open spec fn meant_session(session: Option<Seq<char>>) -> Seq<char> {
    match session {
        Some(s) => if s.len() == 0 {
            "default"@
        } else {
            s
        },
        None => "default"@,
    }
}

/// The workspace of the session that is given is meant; the default one only where none
/// is given.
pub proof fn given_sessions_are_meant(session: Seq<char>)
    ensures
        session.len() > 0 ==> meant_session(Some(session)) == session,
        meant_session(Some(Seq::empty())) == "default"@,
        meant_session(None) == "default"@,
{
}

/// The session whose workspace is meant: the default one where none is given.
pub fn workspace_session(session: Option<&str>) -> (r: String)
    ensures
        r@ == (match session {
            Some(s) => if s@.len() == 0 {
                "default"@
            } else {
                s@
            },
            None => "default"@,
        }),
        r@ == meant_session(
            match session {
                Some(s) => Some(s@),
                None => None,
            },
        ),
{
    match session {
        Some(s) => if s.is_empty() {
            owned("default")
        } else {
            owned(s)
        },
        None => owned("default"),
    }
}

/// Whether a component is a plain name: not the root, nor a step to the directory
/// itself or up.
pub open spec fn is_name(c: Seq<char>) -> bool {
    c.len() > 0 && c != "."@ && c != ".."@ && !c.contains('/')
}

/// The path with those components.
pub open spec fn path_text(all: Seq<Seq<char>>) -> Seq<char> {
    if all.len() > 0 && all[0] == "/"@ {
        "/"@ + joined(all.drop_first(), "/"@)
    } else {
        joined(all, "/"@)
    }
}

/// The search for the deepest part of a path that exists: the workspace, the path
/// that is looked at, and the names that were taken off its end, the last name
/// first.
pub struct ProbeView {
    pub base: Seq<char>,
    pub probe: Seq<char>,
    pub suffix: Seq<Seq<char>>,
}

/// A path with names put to its end, the last of them first.
pub open spec fn extended(path: Seq<char>, suffix: Seq<Seq<char>>) -> Seq<char>
    decreases suffix.len(),
{
    if suffix.len() == 0 {
        path
    } else {
        extended(path_join(path, suffix.last()), suffix.drop_last())
    }
}

impl ProbeView {
    /// The names that were taken off are plain names.
    pub open spec fn wf(self) -> bool {
        forall|i: int| 0 <= i < self.suffix.len() ==> is_name(#[trigger] self.suffix[i])
    }

    /// The path that is looked at does not exist: its last name is taken off,
    /// where it has one.
    pub open spec fn missed(self) -> Option<ProbeView> {
        match last_name(self.probe) {
            Some(name) => Some(
                ProbeView {
                    base: self.base,
                    probe: path_text(components(self.probe).drop_last()),
                    suffix: self.suffix.push(name),
                },
            ),
            None => None,
        }
    }

    /// The path that is looked at exists, and is `canonical`: where that lies in
    /// the workspace, the names that were taken off are put back to it.
    pub open spec fn found(self, canonical: Seq<char>) -> Result<Seq<char>, Refusal> {
        if lies_under(canonical, self.base) {
            Ok(extended(canonical, self.suffix))
        } else {
            Err(Refusal::Forbidden)
        }
    }
}

/// The pieces of a path hold no slash.
proof fn lemma_pieces_free(s: Seq<char>)
    ensures
        pieces(s, '/').len() > 0,
        forall|i: int| 0 <= i < pieces(s, '/').len() ==> !(#[trigger] pieces(s, '/')[i]).contains(
            '/',
        ),
    decreases s.len(),
{
    lemma_run_before(s, '/');
    let k = run_before(s, '/');
    if k < s.len() {
        let rest = s.skip(k + 1);
        lemma_pieces_free(rest);
        assert forall|i: int| 0 <= i < pieces(s, '/').len() implies !(#[trigger] pieces(
            s,
            '/',
        )[i]).contains('/') by {
            if i == 0 {
                assert(pieces(s, '/')[0] == s.take(k));
            } else {
                assert(pieces(s, '/')[i] == pieces(rest, '/')[i - 1]);
            }
        }
    }
}

/// The pieces that count are pieces.
proof fn lemma_counted_from(all: Seq<Seq<char>>)
    ensures
        forall|i: int|
            0 <= i < counted(all).len() ==> counts(#[trigger] counted(all)[i]) && all.contains(
                counted(all)[i],
            ),
    decreases all.len(),
{
    if all.len() > 0 {
        lemma_counted_from(all.drop_last());
        let rest = counted(all.drop_last());
        assert forall|i: int| 0 <= i < counted(all).len() implies counts(
            #[trigger] counted(all)[i],
        ) && all.contains(counted(all)[i]) by {
            if i < rest.len() {
                assert(counted(all)[i] == rest[i]);
                let j = choose|j: int| 0 <= j < all.drop_last().len() && all.drop_last()[j] == rest[i];
                assert(all[j] == rest[i]);
            } else {
                assert(all[all.len() - 1] == counted(all)[i]);
            }
        }
    }
}

/// The name at the end of a path is a plain name.
proof fn lemma_last_name(s: Seq<char>)
    ensures
        last_name(s) matches Some(name) ==> is_name(name),
{
    lemma_pieces_free(s);
    lemma_counted_from(pieces(s, '/'));
    match last_name(s) {
        Some(name) => {
            let c = counted(pieces(s, '/'));
            let h = head(s);
            if c.len() == 0 {
                assert(components(s) =~= h);
                assert(false);
            } else {
                assert(components(s).last() == c.last());
                assert(pieces(s, '/').contains(c[c.len() - 1]));
            }
        },
        None => {},
    }
}

/// The pieces of two texts with a slash between them.
proof fn lemma_pieces_concat(a: Seq<char>, b: Seq<char>)
    ensures
        pieces(a + seq!['/'] + b, '/') == pieces(a, '/') + pieces(b, '/'),
    decreases a.len(),
{
    let s = a + seq!['/'] + b;
    lemma_run_before(a, '/');
    lemma_run_before(s, '/');
    let k = run_before(a, '/');
    let m = run_before(s, '/');
    if k < a.len() {
        if m < k {
            assert(s[m] == a[m]);
        }
        if k < m {
            assert(s[k] == a[k]);
        }
        assert(m == k);
        assert(s.take(k) =~= a.take(k));
        assert(s.skip(k + 1) =~= a.skip(k + 1) + seq!['/'] + b);
        lemma_pieces_concat(a.skip(k + 1), b);
        assert(pieces(s, '/') =~= pieces(a, '/') + pieces(b, '/'));
    } else {
        if m < a.len() {
            assert(s[m] == a[m]);
        }
        if a.len() < m {
            assert(s[a.len() as int] == '/');
        }
        assert(m == a.len());
        assert(s.take(m) =~= a);
        assert(s.skip(m + 1) =~= b);
        assert(pieces(s, '/') =~= pieces(a, '/') + pieces(b, '/'));
    }
}

/// The pieces that count, of one list behind another.
proof fn lemma_counted_concat(a: Seq<Seq<char>>, b: Seq<Seq<char>>)
    ensures
        counted(a + b) == counted(a) + counted(b),
    decreases b.len(),
{
    if b.len() == 0 {
        assert(a + b =~= a);
        assert(counted(a) + counted(b) =~= counted(a));
    } else {
        lemma_counted_concat(a, b.drop_last());
        assert((a + b).drop_last() =~= a + b.drop_last());
        assert((a + b).last() == b.last());
        assert(counted(a + b) =~= counted(a) + counted(b));
    }
}

/// A name without a slash is its only piece.
proof fn lemma_one_piece(name: Seq<char>)
    requires
        !name.contains('/'),
    ensures
        pieces(name, '/') == seq![name],
{
    lemma_run_before(name, '/');
    let k = run_before(name, '/');
    if k < name.len() {
        assert(name[k] == '/');
        assert(name.contains('/'));
    }
}

/// A plain name put to the end of an absolute path is its last component.
proof fn lemma_join_name(path: Seq<char>, name: Seq<char>)
    requires
        is_abs(path),
        is_name(name),
    ensures
        is_abs(path_join(path, name)),
        components(path_join(path, name)) == components(path).push(name),
{
    reveal_strlit("/");
    assert("/"@ =~= seq!['/']);
    let whole = path_join(path, name);
    assert(!is_abs(name)) by {
        if is_abs(name) {
            assert(name.contains(name[0]));
        }
    }
    lemma_one_piece(name);
    assert(counted(seq![name]) =~= seq![name]) by {
        assert(seq![name].drop_last() =~= seq![]);
        assert(counted(seq![]) =~= seq![]);
    }
    if path.last() == '/' {
        let front = path.drop_last();
        assert(path =~= front + seq!['/'] + seq![]);
        assert(whole =~= front + seq!['/'] + name);
        lemma_pieces_concat(front, seq![]);
        lemma_pieces_concat(front, name);
        lemma_run_before(seq![], '/');
        assert(pieces(seq![], '/') =~= seq![seq![]]);
        lemma_counted_concat(pieces(front, '/'), seq![seq![]]);
        lemma_counted_concat(pieces(front, '/'), seq![name]);
        let blank: Seq<Seq<char>> = seq![seq![]];
        assert(counted(blank) =~= seq![]) by {
            assert(blank.drop_last() =~= seq![]);
            assert(blank.last().len() == 0);
            assert(counted(blank.drop_last()) =~= seq![]);
        }
        assert(counted(pieces(path, '/')) =~= counted(pieces(front, '/')));
    } else {
        assert(whole =~= path + seq!['/'] + name);
        lemma_pieces_concat(path, name);
        lemma_counted_concat(pieces(path, '/'), seq![name]);
    }
    assert(whole[0] == path[0]);
    assert(components(whole) =~= components(path).push(name));
}

/// Names with slashes between them, behind the root, are the components of that
/// path.
proof fn lemma_names_joined(names: Seq<Seq<char>>)
    requires
        forall|i: int| 0 <= i < names.len() ==> counts(#[trigger] names[i]) && !names[i].contains('/'),
    ensures
        counted(pieces("/"@ + joined(names, "/"@), '/')) == names,
    decreases names.len(),
{
    reveal_strlit("/");
    assert("/"@ =~= seq!['/']);
    let none: Seq<char> = seq![];
    let blank: Seq<Seq<char>> = seq![none];
    let whole = "/"@ + joined(names, "/"@);
    lemma_run_before(none, '/');
    assert(pieces(none, '/') =~= blank);
    assert(counted(blank) =~= seq![]) by {
        assert(blank.drop_last() =~= seq![]);
        assert(blank.last().len() == 0);
        assert(counted(blank.drop_last()) =~= seq![]);
    }
    if names.len() == 0 {
        assert(whole =~= none + seq!['/'] + none);
        lemma_pieces_concat(none, none);
        lemma_counted_concat(blank, blank);
        assert(counted(pieces(whole, '/')) =~= names);
    } else {
        let last = names.last();
        let rest = names.drop_last();
        assert(counts(names[names.len() - 1]));
        lemma_one_piece(last);
        assert(counted(seq![last]) =~= seq![last]) by {
            assert(seq![last].drop_last() =~= seq![]);
            assert(counted(seq![]) =~= seq![]);
        }
        let front = if rest.len() == 0 {
            none
        } else {
            "/"@ + joined(rest, "/"@)
        };
        assert(whole =~= front + seq!['/'] + last);
        lemma_pieces_concat(front, last);
        lemma_counted_concat(pieces(front, '/'), seq![last]);
        assert forall|i: int| 0 <= i < rest.len() implies counts(#[trigger] rest[i])
            && !rest[i].contains('/') by {
            assert(rest[i] == names[i]);
        }
        lemma_names_joined(rest);
        if rest.len() == 0 {
            assert(counted(pieces(whole, '/')) =~= names);
        } else {
            assert(counted(pieces(whole, '/')) =~= rest.push(last));
            assert(rest.push(last) =~= names);
        }
    }
}

/// The search for the part of a path that exists goes up by one component at each
/// step, so it ends at the root at the latest, and it loses nothing: the name that
/// is taken off, put back to what is left, gives the same components again.
pub proof fn probing_goes_up(p: ProbeView)
    requires
        is_abs(p.probe),
        last_name(p.probe) is Some,
    ensures
        p.missed() matches Some(q) && is_abs(q.probe) && components(q.probe) == components(
            p.probe,
        ).drop_last() && components(path_join(q.probe, q.suffix.last())) == components(p.probe),
{
    let s = p.probe;
    let q = p.missed()->0;
    let c = counted(pieces(s, '/'));
    let all = components(s);
    reveal_strlit("/");
    lemma_last_name(s);
    lemma_pieces_free(s);
    lemma_counted_from(pieces(s, '/'));
    assert(all =~= seq!["/"@] + c);
    assert(c.len() > 0) by {
        if c.len() == 0 {
            assert(all =~= seq!["/"@]);
            assert(all.last() == "/"@);
        }
    }
    let names = c.drop_last();
    assert(all.drop_last() =~= seq!["/"@] + names);
    assert(all.drop_last().drop_first() =~= names);
    assert forall|i: int| 0 <= i < names.len() implies counts(#[trigger] names[i])
        && !names[i].contains('/') by {
        assert(names[i] == c[i]);
        assert(counts(c[i]) && pieces(s, '/').contains(c[i]));
    }
    lemma_names_joined(names);
    assert(q.probe == "/"@ + joined(names, "/"@));
    assert(q.probe[0] == '/');
    assert(components(q.probe) =~= all.drop_last());
    lemma_join_name(q.probe, q.suffix.last());
    assert(components(q.probe).push(q.suffix.last()) =~= all);
}

/// The name of the folder of a session.
pub open spec fn session_folder(session_id: Seq<char>) -> Seq<char> {
    "session-"@ + url_encoded(session_id)
}

/// The folder of a session, below the directory for temporary files.
pub open spec fn session_dir(temp: Seq<char>, session_id: Seq<char>) -> Seq<char> {
    path_join(path_join(temp, "clawrig"@), session_folder(session_id))
}

/// The folder of a session, below the directory for temporary files.
pub fn session_workspace_dir(temp: &str, session_id: &str) -> (r: String)
    ensures
        r@ == session_dir(temp@, session_id@),
{
    let name = cat("session-", url_encode(session_id).as_str());
    join_path(join_path(temp, "clawrig").as_str(), name.as_str())
}

/// The bytes of a text are encoded without slashes.
proof fn lemma_encoded_without_slash(bytes: Seq<u8>)
    ensures
        !encoded_bytes(bytes).contains('/'),
    decreases bytes.len(),
{
    if bytes.len() > 0 {
        lemma_encoded_without_slash(bytes.drop_last());
        let rest = encoded_bytes(bytes.drop_last());
        let last = encoded_byte(bytes.last());
        let all = encoded_bytes(bytes);
        assert forall|i: int| 0 <= i < all.len() implies all[i] != '/' by {
            if i < rest.len() {
                assert(all[i] == rest[i]);
                assert(rest.contains(rest[i]));
            } else {
                assert(all[i] == last[i - rest.len()]);
            }
        }
    }
}

/// The folder of a session has a plain name.
proof fn lemma_session_folder(session_id: Seq<char>)
    ensures
        is_name(session_folder(session_id)),
{
    let name = session_folder(session_id);
    let encoded = url_encoded(session_id);
    reveal_strlit("session-");
    reveal_strlit(".");
    reveal_strlit("..");
    lemma_encoded_without_slash(encode_utf8(session_id));
    assert forall|i: int| 0 <= i < name.len() implies name[i] != '/' by {
        if i >= 8 {
            assert(name[i] == encoded[i - 8]);
            assert(encoded.contains(encoded[i - 8]));
        }
    }
    assert(name[0] == 's');
}

/// Each session has a folder of its own, directly below the common one.
pub proof fn sessions_have_their_own_folders(temp: Seq<char>, a: Seq<char>, b: Seq<char>)
    requires
        is_abs(temp),
        a != b,
    ensures
        components(session_dir(temp, a)) == components(temp).push("clawrig"@).push(
            session_folder(a),
        ),
        session_folder(a) != session_folder(b),
        session_dir(temp, a) != session_dir(temp, b),
{
    reveal_strlit("clawrig");
    reveal_strlit(".");
    reveal_strlit("..");
    assert(is_name("clawrig"@));
    let common = path_join(temp, "clawrig"@);
    lemma_join_name(temp, "clawrig"@);
    lemma_session_folder(a);
    lemma_session_folder(b);
    lemma_join_name(common, session_folder(a));
    lemma_join_name(common, session_folder(b));
    encoded_texts_decode_back(a);
    encoded_texts_decode_back(b);
    if session_folder(a) == session_folder(b) {
        let n = "session-"@.len() as int;
        assert(session_folder(a).skip(n) =~= url_encoded(a));
        assert(session_folder(b).skip(n) =~= url_encoded(b));
    }
    assert(components(session_dir(temp, a)).last() == session_folder(a));
    assert(components(session_dir(temp, b)).last() == session_folder(b));
}

/// A path that the editor may touch lies in the workspace: where the part of it
/// that exists is an absolute path without steps up that lies in the workspace,
/// the whole path has the components of that part and then the missing names, so
/// it lies in the workspace and has no steps up either.
pub proof fn workspace_is_not_left(p: ProbeView, canonical: Seq<char>)
    requires
        p.wf(),
        is_abs(canonical),
        !components(canonical).contains(".."@),
    ensures
        p.found(canonical) matches Ok(path) ==> {
            &&& components(path) == components(canonical) + p.suffix.reverse()
            &&& lies_under(path, p.base)
            &&& !components(path).contains(".."@)
        },
{
    if lies_under(canonical, p.base) {
        lemma_extended(canonical, p.suffix);
        let path = extended(canonical, p.suffix);
        let whole = components(path);
        let base = components(p.base);
        assert(whole.subrange(0, base.len() as int) =~= components(canonical).subrange(
            0,
            base.len() as int,
        ));
        assert(!whole.contains(".."@)) by {
            if whole.contains(".."@) {
                let i = choose|i: int| 0 <= i < whole.len() && whole[i] == ".."@;
                if i < components(canonical).len() {
                    assert(components(canonical)[i] == ".."@);
                } else {
                    let j = i - components(canonical).len();
                    assert(p.suffix.reverse()[j] == p.suffix[p.suffix.len() - 1 - j]);
                    assert(is_name(p.suffix[p.suffix.len() - 1 - j]));
                }
            }
        }
    }
}

/// What the search for a path comes to, where `canon` says of each path which
/// canonical path it has, if it exists: parts of the path are looked at from the
/// whole path up, and the first that exists decides.
pub open spec fn resolved(
    p: ProbeView,
    canon: spec_fn(Seq<char>) -> Option<Seq<char>>,
) -> Result<Seq<char>, Refusal>
    decreases components(p.probe).len(),
    when is_abs(p.probe)
{
    proof {
        if last_name(p.probe) is Some {
            probing_goes_up(p);
        }
    }
    match canon(p.probe) {
        Some(canonical) => p.found(canonical),
        None => match p.missed() {
            Some(up) => resolved(up, canon),
            None => Err(Refusal::Forbidden),
        },
    }
}

/// Whether a function says of paths what a file system does: what is canonical is an
/// absolute path without steps up.
pub open spec fn is_file_system(canon: spec_fn(Seq<char>) -> Option<Seq<char>>) -> bool {
    forall|path: Seq<char>|
        (#[trigger] canon(path)) matches Some(c) ==> is_abs(c) && !components(c).contains(".."@)
}

/// The search for a path ends in a path of the workspace, without steps up, or is
/// refused as forbidden.
proof fn lemma_resolved(p: ProbeView, canon: spec_fn(Seq<char>) -> Option<Seq<char>>)
    requires
        p.wf(),
        is_abs(p.probe),
        is_file_system(canon),
    ensures
        match resolved(p, canon) {
            Ok(path) => lies_under(path, p.base) && !components(path).contains(".."@),
            Err(refusal) => refusal == Refusal::Forbidden,
        },
    decreases components(p.probe).len(),
{
    match canon(p.probe) {
        Some(canonical) => {
            workspace_is_not_left(p, canonical);
        },
        None => {
            if last_name(p.probe) is Some {
                probing_goes_up(p);
                lemma_last_name(p.probe);
                let up = p.missed()->0;
                assert(up.wf());
                lemma_resolved(up, canon);
            }
        },
    }
}

/// The editor is confined to the workspace, whatever the file system holds. A path
/// that it is given, relative or absolute, is resolved to one that lies in the
/// workspace and has no steps up, or is refused as forbidden. A path that exists is
/// resolved to its canonical path where that lies in the workspace, and refused where
/// it leads out.
pub proof fn editor_is_confined(
    base: Seq<char>,
    path_arg: Seq<char>,
    canon: spec_fn(Seq<char>) -> Option<Seq<char>>,
)
    requires
        is_abs(base),
        is_file_system(canon),
    ensures
        ({
            let start = ProbeView { base, probe: path_join(base, path_arg), suffix: seq![] };
            &&& match resolved(start, canon) {
                Ok(path) => lies_under(path, base) && !components(path).contains(".."@),
                Err(refusal) => refusal == Refusal::Forbidden,
            }
            &&& canon(path_join(base, path_arg)) matches Some(canonical) ==> resolved(start, canon)
                == (if lies_under(canonical, base) {
                Ok(canonical)
            } else {
                Err(Refusal::Forbidden)
            })
        }),
{
    let start = ProbeView { base, probe: path_join(base, path_arg), suffix: seq![] };
    assert(is_abs(start.probe)) by {
        if !is_abs(path_arg) {
            assert(start.probe[0] == base[0]);
        }
    }
    lemma_resolved(start, canon);
}

/// A file that does not exist yet, in a directory that exists and lies in the
/// workspace, is resolved to that name in the directory. The directory may be written
/// in any way that has its components.
pub proof fn new_files_are_resolved(
    base: Seq<char>,
    dir: Seq<char>,
    name: Seq<char>,
    canonical: Seq<char>,
    canon: spec_fn(Seq<char>) -> Option<Seq<char>>,
)
    requires
        is_abs(dir),
        is_name(name),
        canon(path_join(dir, name)) is None,
        forall|path: Seq<char>|
            is_abs(path) && components(path) == components(dir) ==> #[trigger] canon(path) == Some(
                canonical,
            ),
        lies_under(canonical, base),
    ensures
        resolved(
            ProbeView { base, probe: path_join(dir, name), suffix: seq![] },
            canon,
        ) == Ok::<Seq<char>, Refusal>(path_join(canonical, name)),
{
    let p = ProbeView { base, probe: path_join(dir, name), suffix: seq![] };
    lemma_join_name(dir, name);
    reveal_strlit("/");
    assert(components(p.probe).last() == name);
    assert(name != "/"@) by {
        if name == "/"@ {
            assert(name[0] == '/');
            assert(name.contains('/'));
        }
    }
    assert(last_name(p.probe) == Some(name));
    probing_goes_up(p);
    let up = p.missed()->0;
    assert(components(up.probe) =~= components(dir));
    assert(canon(up.probe) == canon(dir));
    assert(up.suffix =~= seq![name]);
    assert(up.suffix.drop_last() =~= seq![]);
    assert(extended(path_join(canonical, name), up.suffix.drop_last()) == path_join(
        canonical,
        name,
    ));
    assert(resolved(up, canon) == up.found(canonical));
}

/// The components of a path with plain names put to its end.
proof fn lemma_extended(path: Seq<char>, suffix: Seq<Seq<char>>)
    requires
        is_abs(path),
        forall|i: int| 0 <= i < suffix.len() ==> is_name(#[trigger] suffix[i]),
    ensures
        components(extended(path, suffix)) == components(path) + suffix.reverse(),
    decreases suffix.len(),
{
    if suffix.len() == 0 {
        assert(components(path) + suffix.reverse() =~= components(path));
    } else {
        let name = suffix.last();
        assert(is_name(suffix[suffix.len() - 1]));
        lemma_join_name(path, name);
        lemma_extended(path_join(path, name), suffix.drop_last());
        assert(components(path).push(name) + suffix.drop_last().reverse() =~= components(path)
            + suffix.reverse());
    }
}

/// The search for the deepest part of a path that exists.
pub struct PathProbe {
    base: String,
    probe: String,
    suffix: Vec<String>,
}

impl View for PathProbe {
    type V = ProbeView;

    closed spec fn view(&self) -> ProbeView {
        ProbeView { base: self.base@, probe: self.probe@, suffix: texts(self.suffix@) }
    }
}

impl PathProbe {
    /// The search for a path that is given relative to the workspace, or as an
    /// absolute path. `base` is the canonical path of the workspace.
    pub fn new(base: &str, path_arg: &str) -> (r: PathProbe)
        ensures
            r@.wf(),
            r@ == (ProbeView { base: base@, probe: path_join(base@, path_arg@), suffix: seq![] }),
    {
        let r = PathProbe {
            base: owned(base),
            probe: join_path(base, path_arg),
            suffix: Vec::new(),
        };
        proof {
            assert(r@.suffix =~= seq![]);
        }
        r
    }

    /// The path that is looked at.
    pub fn probe(&self) -> (r: &str)
        ensures
            r@ == self@.probe,
    {
        self.probe.as_str()
    }

    /// The path that is looked at does not exist. The request is refused where
    /// the path has no last name.
    pub fn missing(&mut self) -> (r: Result<(), Refusal>)
        requires
            old(self)@.wf(),
        ensures
            final(self)@.wf(),
            match old(self)@.missed() {
                Some(next) => r is Ok && final(self)@ == next,
                None => r == Err::<(), Refusal>(Refusal::Forbidden) && final(self)@ == old(self)@,
            },
    {
        proof {
            lemma_last_name(self@.probe);
        }
        match file_name(self.probe.as_str()) {
            None => Err(Refusal::Forbidden),
            Some(name) => {
                let ghost before = self@;
                let mut all = path_components(self.probe.as_str());
                let ghost given = components(self@.probe);
                let last = all.pop();
                proof {
                    assert(texts(all@) =~= given.drop_last());
                }
                self.probe = text_of_components(&all);
                let ghost n = name@;
                self.suffix.push(name);
                proof {
                    assert(self@.suffix =~= before.suffix.push(n));
                }
                Ok(())
            },
        }
    }

    /// The path that is looked at exists, and is `canonical`.
    pub fn found(&self, canonical: &str) -> (r: Result<String, Refusal>)
        ensures
            match self@.found(canonical@) {
                Ok(path) => r is Ok && r->Ok_0@ == path,
                Err(e) => r == Err::<String, Refusal>(e),
            },
    {
        if !path_starts_with(canonical, self.base.as_str()) {
            return Err(Refusal::Forbidden);
        }
        let mut path = owned(canonical);
        let mut i: usize = self.suffix.len();
        let ghost names = texts(self.suffix@);
        proof {
            assert(names.take(i as int) =~= names);
        }
        while i > 0
            invariant
                i <= self.suffix@.len(),
                names == texts(self.suffix@),
                extended(canonical@, names) == extended(path@, names.take(i as int)),
            decreases i,
        {
            i = i - 1;
            proof {
                assert(names.take(i + 1).last() == self.suffix@[i as int]@);
                assert(names.take(i + 1).drop_last() =~= names.take(i as int));
            }
            path = join_path(path.as_str(), self.suffix[i].as_str());
        }
        Ok(path)
    }
}

/// The path with those components.
fn text_of_components(all: &Vec<String>) -> (r: String)
    ensures
        r@ == path_text(texts(all@)),
{
    let ghost given = texts(all@);
    if all.len() > 0 && str_eq(all[0].as_str(), "/") {
        let mut rest: Vec<String> = Vec::new();
        proof {
            assert(given[0] == all@[0]@);
        }
        let mut i: usize = 1;
        while i < all.len()
            invariant
                1 <= i <= all@.len(),
                given == texts(all@),
                texts(rest@) == given.subrange(1, i as int),
            decreases all@.len() - i,
        {
            let ghost before = texts(rest@);
            rest.push(all[i].clone());
            proof {
                assert(texts(rest@) =~= before.push(all@[i as int]@));
                assert(given.subrange(1, i + 1) =~= before.push(all@[i as int]@));
            }
            i = i + 1;
        }
        proof {
            assert(texts(rest@) =~= given.drop_first());
        }
        cat("/", join(&rest, "/").as_str())
    } else {
        proof {
            if all@.len() > 0 {
                assert(given[0] == all@[0]@);
            }
        }
        join(all, "/")
    }
}

/// The path of a file as the editor is shown it: relative to the workspace, where
/// it lies in it.
pub open spec fn editor_path(path: Seq<char>, base: Seq<char>) -> Seq<char> {
    match relative(path, base) {
        Some(s) => s,
        None => path,
    }
}

/// The name of a file, or the empty text.
pub open spec fn name_of(path: Seq<char>) -> Seq<char> {
    match last_name(path) {
        Some(name) => name,
        None => seq![],
    }
}

/// A file as the editor gets it.
pub open spec fn file_tree(
    base: Seq<char>,
    path: Seq<char>,
    text: Seq<char>,
    size: int,
) -> Json {
    Json::Table(
        no_fields().push(("path"@, Json::Str(editor_path(path, base)))).push(
            ("name"@, Json::Str(name_of(path))),
        ).push(("content"@, Json::Str(text))).push(("size"@, Json::Num(size))),
    )
}

/// A file as the editor gets it.
pub fn file_document(base: &str, path: &str, text: &str, size: usize) -> (r: Data)
    ensures
        r@ == file_tree(base@, path@, text@, size as int),
{
    let rel = match strip_base(path, base) {
        Some(s) => s,
        None => owned(path),
    };
    let name = match file_name(path) {
        Some(s) => s,
        None => {
            let s = String::new();
            proof {
                assert(s@ =~= seq![]);
            }
            s
        },
    };
    let mut f = Fields::new();
    f.put_str("path", rel.as_str());
    f.put_str("name", name.as_str());
    f.put_str("content", text);
    f.put_uint("size", size as u64);
    f.done()
}

/// The answer to a request for a file: the bytes are shown as text. A text that
/// was written to the file is read back.
pub fn read_file_response(base: &str, path: &str, bytes: &Vec<u8>) -> (r: Data)
    ensures
        r@ == file_tree(base@, path@, lossy(bytes@), bytes@.len() as int),
        forall|text: Seq<char>| #[trigger]
            encode_utf8(text) == bytes@ ==> r@ == file_tree(
                base@,
                path@,
                text,
                bytes@.len() as int,
            ),
{
    broadcast use {vstd::utf8::encode_utf8_valid_utf8, vstd::utf8::encode_utf8_decode_utf8};

    let text = from_utf8_lossy(bytes);
    file_document(base, path, text.as_str(), bytes.len())
}

/// What a file holds after a write: what it held is kept where the text is
/// appended.
pub open spec fn after_write(
    current: Option<Seq<char>>,
    content: Seq<char>,
    append: bool,
) -> Seq<char> {
    match current {
        Some(s) => if append {
            s + content
        } else {
            content
        },
        None => content,
    }
}

/// What a file holds after a write. `current` is what it holds before, where it
/// exists and is a text.
pub fn written_text(current: Option<&str>, content: &str, append: Option<bool>) -> (r: String)
    ensures
        r@ == after_write(
            match current {
                Some(s) => Some(s@),
                None => None,
            },
            content@,
            append == Some(true),
        ),
{
    match (current, append) {
        (Some(s), Some(true)) => cat(s, content),
        _ => owned(content),
    }
}

/// What is answered where a file was written.
pub open spec fn write_file_response_tree(path: Seq<char>, content: Seq<char>) -> Json {
    Json::Table(
        no_fields().push(("status"@, Json::Str("ok"@))).push(("path"@, Json::Str(path))).push(
            ("bytes"@, Json::Num(bytes_in(content) as int)),
        ),
    )
}

/// The answer to a request to write a file.
pub fn write_file_response(path: &str, content: &str) -> (r: Data)
    ensures
        r@ == Json::Table(
            no_fields().push(("status"@, Json::Str("ok"@))).push(("path"@, Json::Str(path@))).push(
                ("bytes"@, Json::Num(bytes_in(content@) as int)),
            ),
        ),
        r@ == write_file_response_tree(path@, content@),
{
    let mut f = Fields::new();
    f.put_str("status", "ok");
    f.put_str("path", path);
    f.put_uint("bytes", byte_len(content) as u64);
    f.done()
}

/// What is answered where a file was deleted.
pub open spec fn delete_file_response_tree(path: Seq<char>) -> Json {
    Json::Table(
        no_fields().push(("status"@, Json::Str("ok"@))).push(("path"@, Json::Str(path))),
    )
}

/// The answer to a request to delete a file.
pub fn delete_file_response(path: &str) -> (r: Data)
    ensures
        r@ == Json::Table(
            no_fields().push(("status"@, Json::Str("ok"@))).push(("path"@, Json::Str(path@))),
        ),
        r@ == delete_file_response_tree(path@),
{
    let mut f = Fields::new();
    f.put_str("status", "ok");
    f.put_str("path", path);
    f.done()
}

/// Whether a directory is left out of the tree, with all that it holds: build and
/// dependency directories, and those of the system.
pub open spec fn is_skipped(name: Seq<char>) -> bool {
    name == ".git"@ || name == "node_modules"@ || name == "target"@ || name == ".cargo"@ || name
        == ".cache"@ || name == ".next"@ || name == ".nuxt"@ || name == "dist"@ || name
        == "build"@ || name == "vendor"@ || name == ".venv"@ || name == "venv"@ || name
        == "__pycache__"@ || name == ".pytest_cache"@ || name == ".mypy_cache"@ || name
        == ".ruff_cache"@ || name == ".idea"@ || name == ".vscode"@ || name == "coverage"@ || name
        == "tmp"@ || name == "bin"@ || name == "boot"@ || name == "dev"@ || name == "etc"@ || name
        == "home"@ || name == "lib"@ || name == "lib64"@ || name == "opt"@ || name == "proc"@
        || name == "root"@ || name == "run"@ || name == "sbin"@ || name == "srv"@ || name == "sys"@
        || name == "usr"@ || name == "var"@
}

/// Whether a directory is left out of the tree.
pub fn skips_dir(name: &str) -> (r: bool)
    ensures
        r == is_skipped(name@),
{
    str_eq(name, ".git") || str_eq(name, "node_modules") || str_eq(name, "target") || str_eq(
        name,
        ".cargo",
    ) || str_eq(name, ".cache") || str_eq(name, ".next") || str_eq(name, ".nuxt") || str_eq(
        name,
        "dist",
    ) || str_eq(name, "build") || str_eq(name, "vendor") || str_eq(name, ".venv") || str_eq(
        name,
        "venv",
    ) || str_eq(name, "__pycache__") || str_eq(name, ".pytest_cache") || str_eq(
        name,
        ".mypy_cache",
    ) || str_eq(name, ".ruff_cache") || str_eq(name, ".idea") || str_eq(name, ".vscode") || str_eq(
        name,
        "coverage",
    ) || str_eq(name, "tmp") || str_eq(name, "bin") || str_eq(name, "boot") || str_eq(name, "dev")
        || str_eq(name, "etc") || str_eq(name, "home") || str_eq(name, "lib") || str_eq(
        name,
        "lib64",
    ) || str_eq(name, "opt") || str_eq(name, "proc") || str_eq(name, "root") || str_eq(name, "run")
        || str_eq(name, "sbin") || str_eq(name, "srv") || str_eq(name, "sys") || str_eq(
        name,
        "usr",
    ) || str_eq(name, "var")
}

/// The deepest level of the tree.
pub const MAX_TREE_DEPTH: usize = 8;

/// What a directory entry is.
#[derive(Debug, Clone, Copy, PartialEq, Eq, Structural)]
pub enum EntryKind {
    Dir,
    File,
    Other,
}

/// An entry of a directory, with what is known of it where it is a file.
#[derive(Debug)]
pub struct TreeEntry {
    pub name: String,
    pub kind: EntryKind,
    pub size: u64,
    pub mtime: u64,
}

/// Entries with their names as keys.
pub open spec fn entries_by_name(v: Seq<TreeEntry>) -> Seq<(Seq<char>, TreeEntry)> {
    Seq::new(v.len(), |i: int| (v[i].name@, v[i]))
}

/// Whether an entry stands in the tree: a file does, and a directory that is not
/// skipped.
pub open spec fn is_kept(e: TreeEntry) -> bool {
    match e.kind {
        EntryKind::Dir => !is_skipped(e.name@),
        EntryKind::File => true,
        EntryKind::Other => false,
    }
}

/// The entries that stand in the tree.
pub open spec fn kept_entries(v: Seq<(Seq<char>, TreeEntry)>) -> Seq<TreeEntry>
    decreases v.len(),
{
    if v.len() == 0 {
        seq![]
    } else {
        let rest = kept_entries(v.drop_last());
        if is_kept(v.last().1) {
            rest.push(v.last().1)
        } else {
            rest
        }
    }
}

/// The entries of a directory that stand in the tree, in the order of their
/// names; none where the directory is too deep.
pub fn tree_level(entries: Vec<TreeEntry>, depth: usize) -> (r: Vec<TreeEntry>)
    ensures
        r@ == (if depth > 8 {
            Seq::empty()
        } else {
            kept_entries(sorted(entries_by_name(entries@)))
        }),
        r@ == level_of(entries@, depth as int),
{
    let mut out: Vec<TreeEntry> = Vec::new();
    if depth > MAX_TREE_DEPTH {
        return out;
    }
    let mut items: Vec<Keyed<TreeEntry>> = Vec::new();
    for e in it: entries
        invariant
            it.seq() == entries@,
            items@.len() == it.index(),
            forall|j: int|
                0 <= j < it.index() ==> (#[trigger] items@[j]).key@ == entries@[j].name@
                    && items@[j].value == entries@[j],
    {
        items.push(Keyed { key: e.name.clone(), value: e });
    }
    proof {
        assert(keyed(items@) =~= entries_by_name(entries@));
    }
    let ordered = sort_by_key(items);
    let ghost all = keyed(ordered@);
    proof {
        assert(out@ =~= kept_entries(all.take(0)));
    }
    for item in it: ordered
        invariant
            it.seq() == ordered@,
            all == keyed(ordered@),
            out@ == kept_entries(all.take(it.index() as int)),
    {
        let ghost n = it.index() as int;
        proof {
            assert(all.take(n + 1).drop_last() =~= all.take(n));
            assert(all.take(n + 1).last() == (item.key@, item.value));
        }
        let e = item.value;
        let keep = match e.kind {
            EntryKind::Dir => !skips_dir(e.name.as_str()),
            EntryKind::File => true,
            EntryKind::Other => false,
        };
        if keep {
            out.push(e);
        }
    }
    proof {
        assert(all.take(all.len() as int) =~= all);
    }
    out
}

/// The entries of a directory at that depth that stand in the tree.
pub open spec fn level_of(entries: Seq<TreeEntry>, depth: int) -> Seq<TreeEntry> {
    if depth > 8 {
        Seq::empty()
    } else {
        kept_entries(sorted(entries_by_name(entries)))
    }
}

/// The path of an entry of a directory of the workspace.
pub open spec fn entry_path(dir: Seq<char>, name: Seq<char>) -> Seq<char> {
    if dir.len() == 0 {
        name
    } else {
        dir + "/"@ + name
    }
}

/// The path of an entry of a directory of the workspace.
pub fn path_in(dir: &str, name: &str) -> (r: String)
    ensures
        r@ == entry_path(dir@, name@),
{
    if dir.is_empty() {
        owned(name)
    } else {
        cat3(dir, "/", name)
    }
}

/// A directory in the tree.
pub open spec fn dir_tree(name: Seq<char>, path: Seq<char>, children: Seq<Json>) -> Json {
    Json::Table(
        no_fields().push(("name"@, Json::Str(name))).push(("type"@, Json::Str("dir"@))).push(
            ("path"@, Json::Str(path)),
        ).push(("children"@, Json::List(children))),
    )
}

/// A file in the tree.
pub open spec fn leaf_tree(name: Seq<char>, path: Seq<char>, size: int, mtime: int) -> Json {
    Json::Table(
        no_fields().push(("name"@, Json::Str(name))).push(("type"@, Json::Str("file"@))).push(
            ("path"@, Json::Str(path)),
        ).push(("size"@, Json::Num(size))).push(("mtime"@, Json::Num(mtime))),
    )
}

/// An entry in the tree.
pub open spec fn node_of(entry: TreeEntry, path: Seq<char>, children: Seq<Json>) -> Json {
    if entry.kind == EntryKind::Dir {
        dir_tree(entry.name@, path, children)
    } else {
        leaf_tree(entry.name@, path, entry.size as int, entry.mtime as int)
    }
}

/// An entry in the tree. A directory has the children that are given.
pub fn tree_node(entry: &TreeEntry, path: &str, children: Vec<Data>) -> (r: Data)
    ensures
        r@ == (if entry.kind == EntryKind::Dir {
            dir_tree(entry.name@, path@, trees(children@))
        } else {
            leaf_tree(entry.name@, path@, entry.size as int, entry.mtime as int)
        }),
        r@ == node_of(*entry, path@, trees(children@)),
{
    let mut f = Fields::new();
    f.put_str("name", entry.name.as_str());
    if entry.kind == EntryKind::Dir {
        f.put_str("type", "dir");
        f.put_str("path", path);
        f.put("children", Data::list(children));
    } else {
        f.put_str("type", "file");
        f.put_str("path", path);
        f.put_uint("size", entry.size);
        f.put_uint("mtime", entry.mtime);
    }
    f.done()
}

/// A file in the flat list.
pub open spec fn flat_entry(n: Json) -> Json {
    Json::Table(
        no_fields().push(("path"@, n.at("path"@))).push(("size"@, n.at("size"@))).push(
            ("mtime"@, n.at("mtime"@)),
        ),
    )
}

/// The files of a node, one after the other.
pub open spec fn flat_node(n: Json) -> Seq<Json>
    decreases n, 0int,
{
    if n.at("type"@) == Json::Str("dir"@) {
        match n.get("children"@) {
            Some(Json::List(children)) => {
                proof {
                    lemma_get_decreases(n, "children"@);
                    assert(decreases_to!(n.get("children"@)->0 => n.get("children"@)->0->List_0));
                }
                flat(children)
            },
            _ => seq![],
        }
    } else {
        seq![flat_entry(n)]
    }
}

/// The files of nodes, one after the other.
pub open spec fn flat(nodes: Seq<Json>) -> Seq<Json>
    decreases nodes, 1int,
{
    if nodes.len() == 0 {
        seq![]
    } else {
        flat(nodes.drop_last()) + flat_node(nodes.last())
    }
}

/// A copy of a field, or nothing.
fn field_copy(n: &Data, key: &str) -> (r: Data)
    ensures
        r@ == n@.at(key@),
{
    match n.get(key) {
        Some(v) => v.clone(),
        None => Data::Null,
    }
}

/// Whether a node is a directory.
fn is_dir_node(n: &Data) -> (r: bool)
    ensures
        r == (n@.at("type"@) == Json::Str("dir"@)),
{
    match n.str_at("type") {
        Some(s) => str_eq(s, "dir"),
        None => false,
    }
}

/// Adds the files of nodes to a flat list, one after the other.
pub fn flatten_tree(nodes: &Vec<Data>, out: &mut Vec<Data>)
    ensures
        trees(final(out)@) == trees(old(out)@) + flat(trees(nodes@)),
    decreases nodes@,
{
    let ghost before = trees(out@);
    let ghost all = trees(nodes@);
    proof {
        assert(before + flat(all.take(0)) =~= before);
    }
    for i in 0..nodes.len()
        invariant
            all == trees(nodes@),
            trees(out@) == before + flat(all.take(i as int)),
    {
        let n = &nodes[i];
        let ghost now = trees(out@);
        proof {
            assert(all.take(i + 1).drop_last() =~= all.take(i as int));
            assert(all.take(i + 1).last() == n@);
            assert(flat(all.take(i + 1)) == flat(all.take(i as int)) + flat_node(n@));
        }
        if is_dir_node(n) {
            match n.get("children") {
                Some(child) => match child {
                    Data::List(children) => {
                        proof {
                            crate::value::lemma_list_tree(*children);
                            assert(decreases_to!(nodes@ => nodes@[i as int]));
                            assert(decreases_to!(*child => child->List_0));
                            assert(decreases_to!(child->List_0 => children@));
                            assert(flat_node(n@) == flat(trees(children@)));
                        }
                        flatten_tree(children, out);
                    },
                    _ => {
                        proof {
                            assert(flat_node(n@) =~= seq![]);
                        }
                    },
                },
                None => {
                    proof {
                        assert(flat_node(n@) =~= seq![]);
                    }
                },
            }
        } else {
            let mut f = Fields::new();
            f.put("path", field_copy(n, "path"));
            f.put("size", field_copy(n, "size"));
            f.put("mtime", field_copy(n, "mtime"));
            let entry = f.done();
            out.push(entry);
            proof {
                assert(trees(out@) =~= now.push(entry@));
                assert(now.push(entry@) =~= now + flat_node(n@));
            }
        }
        proof {
            assert(trees(out@) =~= before + flat(all.take(i + 1)));
        }
    }
    proof {
        assert(all.take(all.len() as int) =~= all);
    }
}

/// The flat list of a tree of entries: a directory gives the files below it, in
/// order, and a file gives itself.
pub proof fn flat_list_follows_the_tree(
    name: Seq<char>,
    path: Seq<char>,
    children: Seq<Json>,
    size: int,
    mtime: int,
)
    ensures
        flat_node(dir_tree(name, path, children)) == flat(children),
        flat_node(leaf_tree(name, path, size, mtime)) == seq![
            Json::Table(
                no_fields().push(("path"@, Json::Str(path))).push(("size"@, Json::Num(size))).push(
                    ("mtime"@, Json::Num(mtime)),
                ),
            ),
        ],
{
    reveal_strlit("name");
    reveal_strlit("type");
    reveal_strlit("path");
    reveal_strlit("children");
    reveal_strlit("size");
    reveal_strlit("mtime");
    reveal_strlit("dir");
    reveal_strlit("file");
    assert("name"@[0] != "type"@[0] && "name"@[0] != "path"@[0] && "name"@[0] != "size"@[0]);
    assert("type"@[0] != "path"@[0] && "type"@[0] != "size"@[0] && "path"@[0] != "size"@[0]);
    assert("children"@.len() == 8 && "mtime"@.len() == 5 && "name"@.len() == 4);
    assert("type"@.len() == 4 && "path"@.len() == 4 && "size"@.len() == 4);
    assert("dir"@.len() == 3 && "file"@.len() == 4);
    let d = dir_tree(name, path, children);
    lemma_find(d->Table_0, 1, "type"@);
    lemma_find(d->Table_0, 3, "children"@);
    let l = leaf_tree(name, path, size, mtime);
    lemma_find(l->Table_0, 1, "type"@);
    lemma_find(l->Table_0, 2, "path"@);
    lemma_find(l->Table_0, 3, "size"@);
    lemma_find(l->Table_0, 4, "mtime"@);
}

/// Documents with the texts in their field `path` as keys.
pub open spec fn by_path(files: Seq<Json>) -> Seq<(Seq<char>, Json)> {
    Seq::new(files.len(), |i: int| (files[i].at("path"@).text_or_empty(), files[i]))
}

/// Documents in the order of their keys.
pub open spec fn values_of(v: Seq<(Seq<char>, Json)>) -> Seq<Json> {
    Seq::new(v.len(), |i: int| v[i].1)
}

/// The answer to a request for the files of a workspace: the tree, and the flat
/// list in the order of paths.
pub open spec fn files_tree(root: Seq<char>, nodes: Seq<Json>) -> Json {
    Json::Table(
        no_fields().push(("root"@, Json::Str(root))).push(("tree"@, Json::List(nodes))).push(
            ("files"@, Json::List(values_of(sorted(by_path(flat(nodes)))))),
        ),
    )
}

/// The answer to a request for the files of a workspace.
pub fn list_files_response(root: &str, nodes: Vec<Data>) -> (r: Data)
    ensures
        r@ == files_tree(root@, trees(nodes@)),
{
    let mut files: Vec<Data> = Vec::new();
    proof {
        assert(trees(files@) =~= Seq::empty());
    }
    flatten_tree(&nodes, &mut files);
    let ghost all = flat(trees(nodes@));
    proof {
        assert(trees(files@) =~= all);
    }
    let ghost given = files@;
    let mut items: Vec<Keyed<Data>> = Vec::new();
    for d in it: files
        invariant
            it.seq() == files@,
            items@.len() == it.index(),
            forall|j: int|
                0 <= j < it.index() ==> (#[trigger] items@[j]).key@ == files@[j]@.at(
                    "path"@,
                ).text_or_empty() && items@[j].value == files@[j],
    {
        items.push(Keyed { key: d.text_at("path"), value: d });
    }
    let ghost f = |d: Data| d@;
    proof {
        assert(crate::sort::with_values(keyed(items@), f) =~= by_path(all));
        crate::sort::sorting_looks_at_keys(keyed(items@), f);
    }
    let ordered = sort_by_key(items);
    let mut out: Vec<Data> = Vec::new();
    for item in it: ordered
        invariant
            it.seq() == ordered@,
            out@.len() == it.index(),
            forall|j: int| 0 <= j < it.index() ==> #[trigger] out@[j] == ordered@[j].value,
    {
        out.push(item.value);
    }
    proof {
        let want = values_of(sorted(by_path(all)));
        assert forall|j: int| 0 <= j < out@.len() implies trees(out@)[j] == (#[trigger] want[j]) by {
            assert(sorted(by_path(all))[j] == crate::sort::with_values(keyed(ordered@), f)[j]);
        }
        assert(trees(out@) =~= want);
    }
    let mut r = Fields::new();
    r.put_str("root", root);
    r.put("tree", Data::list(nodes));
    r.put("files", Data::list(out));
    r.done()
}

/// What is answered where there is no workspace.
pub open spec fn no_files_response_tree() -> Json {
    Json::Table(
        no_fields().push(("root"@, Json::Str(Seq::empty()))).push(
            ("tree"@, Json::List(Seq::empty())),
        ).push(("files"@, Json::List(Seq::empty()))),
    )
}

/// The answer where there is no workspace.
pub fn no_files_response() -> (r: Data)
    ensures
        r@ == Json::Table(
            no_fields().push(("root"@, Json::Str(Seq::empty()))).push(
                ("tree"@, Json::List(Seq::empty())),
            ).push(("files"@, Json::List(Seq::empty()))),
        ),
        r@ == no_files_response_tree(),
{
    let root = String::new();
    let nodes: Vec<Data> = Vec::new();
    let files: Vec<Data> = Vec::new();
    proof {
        assert(root@ =~= Seq::empty());
        assert(trees(nodes@) =~= Seq::empty());
        assert(trees(files@) =~= Seq::empty());
    }
    let mut r = Fields::new();
    r.put_str("root", root.as_str());
    r.put("tree", Data::list(nodes));
    r.put("files", Data::list(files));
    r.done()
}

/// A directory in which a project is looked for: its path, its name, and its path in
/// the workspace.
#[derive(Debug)]
pub struct ProjectDir {
    pub path: String,
    pub name: String,
    pub rel: String,
}

/// What a directory says.
pub struct ProjectDirView {
    pub path: Seq<char>,
    pub name: Seq<char>,
    pub rel: Seq<char>,
}

impl View for ProjectDir {
    type V = ProjectDirView;

    open spec fn view(&self) -> ProjectDirView {
        ProjectDirView { path: self.path@, name: self.name@, rel: self.rel@ }
    }
}

/// What a list of directories says.
pub open spec fn dir_views(v: Seq<ProjectDir>) -> Seq<ProjectDirView> {
    Seq::new(v.len(), |i: int| v[i]@)
}

/// The directories in which projects are looked for: the workspace itself, then the
/// directories right in it, in the order of its entries, but for those that are
/// skipped.
pub open spec fn project_places(
    base: Seq<char>,
    entries: Seq<(Seq<char>, EntryKind)>,
) -> Seq<ProjectDirView>
    decreases entries.len(),
{
    if entries.len() == 0 {
        seq![ProjectDirView { path: base, name: name_of(base), rel: seq![] }]
    } else {
        let before = project_places(base, entries.drop_last());
        let (name, kind) = entries.last();
        if kind == EntryKind::Dir && !is_skipped(name) {
            before.push(ProjectDirView { path: path_join(base, name), name, rel: name })
        } else {
            before
        }
    }
}

/// The directories in which projects are looked for, given the entries of the
/// workspace.
pub fn project_dirs(base: &str, entries: &Vec<WalkEntry>) -> (r: Vec<ProjectDir>)
    ensures
        dir_views(r@) == project_places(base@, entry_views(entries@)),
{
    let ghost all = entry_views(entries@);
    let name = match file_name(base) {
        Some(s) => s,
        None => String::new(),
    };
    let rel = String::new();
    let mut out: Vec<ProjectDir> = Vec::new();
    proof {
        assert(rel@ =~= seq![]);
        assert(name@ =~= name_of(base@));
    }
    out.push(ProjectDir { path: owned(base), name, rel });
    proof {
        assert(dir_views(out@) =~= project_places(base@, all.take(0)));
    }
    for i in 0..entries.len()
        invariant
            all == entry_views(entries@),
            dir_views(out@) == project_places(base@, all.take(i as int)),
    {
        let ghost before = dir_views(out@);
        proof {
            assert(all.take(i + 1).drop_last() =~= all.take(i as int));
            assert(all.take(i + 1).last() == all[i as int]);
        }
        if entries[i].kind == EntryKind::Dir && !skips_dir(entries[i].name.as_str()) {
            let found = ProjectDir {
                path: join_path(base, entries[i].name.as_str()),
                name: entries[i].name.clone(),
                rel: entries[i].name.clone(),
            };
            out.push(found);
            proof {
                assert(dir_views(out@) =~= before.push(found@));
            }
        }
    }
    proof {
        assert(all.take(all.len() as int) =~= all);
    }
    out
}

/// The answer to a request for the projects of a workspace.
pub fn projects_response(projects: Vec<Data>) -> (r: Data)
    ensures
        r@ == Json::Table(no_fields().push(("projects"@, Json::List(trees(projects@))))),
{
    let mut r = Fields::new();
    r.put("projects", Data::list(projects));
    r.done()
}

/// The names of the fields of files differ.
proof fn lemma_node_names()
    ensures
        "name"@ != "type"@,
        "name"@ != "path"@,
        "name"@ != "children"@,
        "name"@ != "size"@,
        "name"@ != "mtime"@,
        "name"@ != "content"@,
        "name"@ != "root"@,
        "name"@ != "tree"@,
        "name"@ != "files"@,
        "type"@ != "path"@,
        "type"@ != "children"@,
        "type"@ != "size"@,
        "type"@ != "mtime"@,
        "type"@ != "content"@,
        "type"@ != "root"@,
        "type"@ != "tree"@,
        "type"@ != "files"@,
        "path"@ != "children"@,
        "path"@ != "size"@,
        "path"@ != "mtime"@,
        "path"@ != "content"@,
        "path"@ != "root"@,
        "path"@ != "tree"@,
        "path"@ != "files"@,
        "children"@ != "size"@,
        "children"@ != "mtime"@,
        "children"@ != "content"@,
        "children"@ != "root"@,
        "children"@ != "tree"@,
        "children"@ != "files"@,
        "size"@ != "mtime"@,
        "size"@ != "content"@,
        "size"@ != "root"@,
        "size"@ != "tree"@,
        "size"@ != "files"@,
        "mtime"@ != "content"@,
        "mtime"@ != "root"@,
        "mtime"@ != "tree"@,
        "mtime"@ != "files"@,
        "content"@ != "root"@,
        "content"@ != "tree"@,
        "content"@ != "files"@,
        "root"@ != "tree"@,
        "root"@ != "files"@,
        "tree"@ != "files"@,
{
    reveal_strlit("name");
    reveal_strlit("type");
    reveal_strlit("path");
    reveal_strlit("children");
    reveal_strlit("size");
    reveal_strlit("mtime");
    reveal_strlit("content");
    reveal_strlit("root");
    reveal_strlit("tree");
    reveal_strlit("files");
    assert("name"@.len() == 4);
    assert("type"@.len() == 4);
    assert("path"@.len() == 4);
    assert("children"@.len() == 8);
    assert("size"@.len() == 4);
    assert("mtime"@.len() == 5);
    assert("content"@.len() == 7);
    assert("root"@.len() == 4);
    assert("tree"@.len() == 4);
    assert("files"@.len() == 5);
    assert("name"@[0] == 'n' && "type"@[0] == 't');
    assert("name"@[0] == 'n' && "path"@[0] == 'p');
    assert("name"@[0] == 'n' && "size"@[0] == 's');
    assert("name"@[0] == 'n' && "root"@[0] == 'r');
    assert("name"@[0] == 'n' && "tree"@[0] == 't');
    assert("type"@[0] == 't' && "path"@[0] == 'p');
    assert("type"@[0] == 't' && "size"@[0] == 's');
    assert("type"@[0] == 't' && "root"@[0] == 'r');
    assert("type"@[1] == 'y' && "tree"@[1] == 'r');
    assert("path"@[0] == 'p' && "size"@[0] == 's');
    assert("path"@[0] == 'p' && "root"@[0] == 'r');
    assert("path"@[0] == 'p' && "tree"@[0] == 't');
    assert("size"@[0] == 's' && "root"@[0] == 'r');
    assert("size"@[0] == 's' && "tree"@[0] == 't');
    assert("mtime"@[0] == 'm' && "files"@[0] == 'f');
    assert("root"@[0] == 'r' && "tree"@[0] == 't');
}


/// Only the directories of builds, dependencies, caches, editors and the system are left
/// out of the tree.
pub proof fn only_listed_directories_are_left_out(name: Seq<char>)
    ensures
        is_skipped(name) <==> seq![
            ".git"@,
            "node_modules"@,
            "target"@,
            ".cargo"@,
            ".cache"@,
            ".next"@,
            ".nuxt"@,
            "dist"@,
            "build"@,
            "vendor"@,
            ".venv"@,
            "venv"@,
            "__pycache__"@,
            ".pytest_cache"@,
            ".mypy_cache"@,
            ".ruff_cache"@,
            ".idea"@,
            ".vscode"@,
            "coverage"@,
            "tmp"@,
            "bin"@,
            "boot"@,
            "dev"@,
            "etc"@,
            "home"@,
            "lib"@,
            "lib64"@,
            "opt"@,
            "proc"@,
            "root"@,
            "run"@,
            "sbin"@,
            "srv"@,
            "sys"@,
            "usr"@,
            "var"@,
        ].contains(name),
{
    let all = seq![
        ".git"@,
        "node_modules"@,
        "target"@,
        ".cargo"@,
        ".cache"@,
        ".next"@,
        ".nuxt"@,
        "dist"@,
        "build"@,
        "vendor"@,
        ".venv"@,
        "venv"@,
        "__pycache__"@,
        ".pytest_cache"@,
        ".mypy_cache"@,
        ".ruff_cache"@,
        ".idea"@,
        ".vscode"@,
        "coverage"@,
        "tmp"@,
        "bin"@,
        "boot"@,
        "dev"@,
        "etc"@,
        "home"@,
        "lib"@,
        "lib64"@,
        "opt"@,
        "proc"@,
        "root"@,
        "run"@,
        "sbin"@,
        "srv"@,
        "sys"@,
        "usr"@,
        "var"@,
    ];
    assert(all[0] == ".git"@);
    assert(all[1] == "node_modules"@);
    assert(all[2] == "target"@);
    assert(all[3] == ".cargo"@);
    assert(all[4] == ".cache"@);
    assert(all[5] == ".next"@);
    assert(all[6] == ".nuxt"@);
    assert(all[7] == "dist"@);
    assert(all[8] == "build"@);
    assert(all[9] == "vendor"@);
    assert(all[10] == ".venv"@);
    assert(all[11] == "venv"@);
    assert(all[12] == "__pycache__"@);
    assert(all[13] == ".pytest_cache"@);
    assert(all[14] == ".mypy_cache"@);
    assert(all[15] == ".ruff_cache"@);
    assert(all[16] == ".idea"@);
    assert(all[17] == ".vscode"@);
    assert(all[18] == "coverage"@);
    assert(all[19] == "tmp"@);
    assert(all[20] == "bin"@);
    assert(all[21] == "boot"@);
    assert(all[22] == "dev"@);
    assert(all[23] == "etc"@);
    assert(all[24] == "home"@);
    assert(all[25] == "lib"@);
    assert(all[26] == "lib64"@);
    assert(all[27] == "opt"@);
    assert(all[28] == "proc"@);
    assert(all[29] == "root"@);
    assert(all[30] == "run"@);
    assert(all[31] == "sbin"@);
    assert(all[32] == "srv"@);
    assert(all[33] == "sys"@);
    assert(all[34] == "usr"@);
    assert(all[35] == "var"@);
}

/// Each entry of a directory stands in the tree exactly where it is a file, or a
/// directory that is not left out; and one that stands there stands behind those before
/// it.
pub proof fn files_and_directories_stand_in_the_tree(
    v: Seq<(Seq<char>, TreeEntry)>,
    key: Seq<char>,
    e: TreeEntry,
)
    ensures
        kept_entries(seq![]).len() == 0,
        kept_entries(v.push((key, e))) == (if e.kind == EntryKind::File || (e.kind
            == EntryKind::Dir && !is_skipped(e.name@)) {
            kept_entries(v).push(e)
        } else {
            kept_entries(v)
        }),
{
    assert(v.push((key, e)).drop_last() =~= v);
}

/// A level of the tree holds every file and every directory that is not left out, in the
/// order of their names, and nothing else; below the eighth level nothing is shown.
pub proof fn levels_hold_their_entries(entries: Seq<TreeEntry>, depth: int, i: int)
    ensures
        depth > 8 ==> level_of(entries, depth).len() == 0,
        depth <= 8 && 0 <= i < entries.len() && (entries[i].kind == EntryKind::File || (
        entries[i].kind == EntryKind::Dir && !is_skipped(entries[i].name@))) ==> level_of(
            entries,
            depth,
        ).contains(entries[i]),
        forall|k: int|
            0 <= k < level_of(entries, depth).len() ==> {
                let e = #[trigger] level_of(entries, depth)[k];
                entries.contains(e) && (e.kind == EntryKind::File || (e.kind == EntryKind::Dir
                    && !is_skipped(e.name@)))
            },
        forall|a: int, b: int|
            0 <= a < b < level_of(entries, depth).len() ==> !before(
                (#[trigger] level_of(entries, depth)[b]).name@,
                (#[trigger] level_of(entries, depth)[a]).name@,
            ),
{
    if depth <= 8 {
        let keys = entries_by_name(entries);
        let all = sorted(keys);
        sorting_is_stable(keys);
        sorting_keeps_every_item(keys);
        assert forall|k: int| 0 <= k < all.len() implies (#[trigger] all[k]).0 == all[k].1.name@
            && entries.contains(all[k].1) by {
            assert(all.contains(all[k]));
            assert(keys.contains(all[k]));
            let m = choose|m: int| 0 <= m < keys.len() && keys[m] == all[k];
            assert(entries[m] == all[k].1);
        }
        lemma_kept(all);
        if 0 <= i < entries.len() {
            assert(keys[i] == (entries[i].name@, entries[i]));
            assert(keys.contains(keys[i]));
            assert(all.contains(keys[i]));
            let k = choose|k: int| 0 <= k < all.len() && all[k] == keys[i];
            if is_kept(entries[i]) {
                lemma_kept_entry(all, k);
            }
        }
        let kept = kept_entries(all);
        assert forall|k: int| 0 <= k < kept.len() implies ({
            let e = #[trigger] kept[k];
            entries.contains(e) && (e.kind == EntryKind::File || (e.kind == EntryKind::Dir
                && !is_skipped(e.name@)))
        }) by {
            let m = choose|m: int| 0 <= m < all.len() && (#[trigger] all[m]).1 == kept[k];
            assert(entries.contains(all[m].1));
        }
    }
}

/// The entries that are kept come from the list, and keep its order.
proof fn lemma_kept(v: Seq<(Seq<char>, TreeEntry)>)
    requires
        ordered(v),
        forall|k: int| 0 <= k < v.len() ==> (#[trigger] v[k]).0 == v[k].1.name@,
    ensures
        forall|k: int|
            0 <= k < kept_entries(v).len() ==> is_kept(#[trigger] kept_entries(v)[k]) && is_value(
                v,
                kept_entries(v)[k],
            ),
        forall|a: int, b: int|
            0 <= a < b < kept_entries(v).len() ==> !before(
                (#[trigger] kept_entries(v)[b]).name@,
                (#[trigger] kept_entries(v)[a]).name@,
            ),
    decreases v.len(),
{
    if v.len() > 0 {
        let front = v.drop_last();
        lemma_kept(front);
        let old = kept_entries(front);
        let new = kept_entries(v);
        assert forall|k: int| 0 <= k < new.len() implies is_kept(#[trigger] new[k]) && is_value(
            v,
            new[k],
        ) by {
            if k < old.len() {
                assert(new[k] == old[k]);
                let m = choose|m: int| 0 <= m < front.len() && (#[trigger] front[m]).1 == old[k];
                assert(v[m] == front[m]);
            } else {
                assert(v[v.len() - 1].1 == new[k]);
            }
        }
        assert forall|a: int, b: int| 0 <= a < b < new.len() implies !before(
            (#[trigger] new[b]).name@,
            (#[trigger] new[a]).name@,
        ) by {
            assert(new[a] == old[a]);
            if b < old.len() {
                assert(new[b] == old[b]);
            } else {
                let m = choose|m: int| 0 <= m < front.len() && (#[trigger] front[m]).1 == old[a];
                assert(v[m] == front[m]);
                assert(!before(v[v.len() - 1].0, v[m].0));
            }
        }
    }
}

/// Whether an entry is one of the list.
spec fn is_value(v: Seq<(Seq<char>, TreeEntry)>, e: TreeEntry) -> bool {
    exists|m: int| 0 <= m < v.len() && (#[trigger] v[m]).1 == e
}

/// An entry of the list that stands in the tree is kept.
proof fn lemma_kept_entry(v: Seq<(Seq<char>, TreeEntry)>, k: int)
    requires
        0 <= k < v.len(),
        is_kept(v[k].1),
    ensures
        kept_entries(v).contains(v[k].1),
    decreases v.len(),
{
    let front = v.drop_last();
    let old = kept_entries(front);
    let new = kept_entries(v);
    if k < front.len() {
        assert(front[k] == v[k]);
        lemma_kept_entry(front, k);
        let m = choose|m: int| 0 <= m < old.len() && old[m] == v[k].1;
        assert(new[m] == v[k].1);
    } else {
        assert(new.last() == v[k].1);
    }
}

/// The path of an entry is its name behind the path of its directory; in the workspace
/// itself it is the name.
pub proof fn entries_lie_in_their_directory(dir: Seq<char>, name: Seq<char>)
    ensures
        dir.len() > 0 ==> entry_path(dir, name) == dir + "/"@ + name,
        dir.len() == 0 ==> entry_path(dir, name) == name,
{
}

/// A directory in the tree says its name and path and holds its children; a file says
/// its name, path, size and when it was changed.
pub proof fn nodes_say_what_they_are(
    name: Seq<char>,
    path: Seq<char>,
    children: Seq<Json>,
    size: int,
    mtime: int,
)
    ensures
        ({
            let d = dir_tree(name, path, children);
            &&& d.at("type"@) == Json::Str("dir"@)
            &&& d.at("name"@) == Json::Str(name)
            &&& d.at("path"@) == Json::Str(path)
            &&& d.at("children"@) == Json::List(children)
        }),
        ({
            let f = leaf_tree(name, path, size, mtime);
            &&& f.at("type"@) == Json::Str("file"@)
            &&& f.at("name"@) == Json::Str(name)
            &&& f.at("path"@) == Json::Str(path)
            &&& f.at("size"@) == Json::Num(size)
            &&& f.at("mtime"@) == Json::Num(mtime)
        }),
{
    broadcast use lemma_lookup_push;

    lemma_node_names();
}

/// The flat list has the files of each node behind those of the nodes before it, and a
/// file is listed with its path, its size and when it was changed.
pub proof fn flat_lists_hold_every_file(nodes: Seq<Json>, n: Json)
    ensures
        flat(seq![]).len() == 0,
        flat(nodes.push(n)) == flat(nodes) + flat_node(n),
        n.at("type"@) != Json::Str("dir"@) ==> flat_node(n).len() == 1 && flat_node(n)[0].at(
            "path"@,
        ) == n.at("path"@) && flat_node(n)[0].at("size"@) == n.at("size"@) && flat_node(n)[0].at(
            "mtime"@,
        ) == n.at("mtime"@),
{
    broadcast use lemma_lookup_push;

    lemma_node_names();
    assert(nodes.push(n).drop_last() =~= nodes);
}

/// The files of a workspace are answered with the tree as it is, and with every file of
/// it, each as often as it stands there, in the order of paths.
pub proof fn all_files_are_listed(root: Seq<char>, nodes: Seq<Json>)
    ensures
        ({
            let answer = files_tree(root, nodes);
            let files = answer.at("files"@).elements();
            &&& answer.at("root"@) == Json::Str(root)
            &&& answer.at("tree"@) == Json::List(nodes)
            &&& answer.at("files"@) is List
            &&& files.len() == flat(nodes).len()
            &&& forall|f: Json| #[trigger] files.contains(f) <==> flat(nodes).contains(f)
            &&& forall|i: int, j: int|
                0 <= i < j < files.len() ==> !before(
                    (#[trigger] files[j]).at("path"@).text_or_empty(),
                    (#[trigger] files[i]).at("path"@).text_or_empty(),
                )
        }),
{
    broadcast use lemma_lookup_push;

    lemma_node_names();
    let found = flat(nodes);
    let keys = by_path(found);
    let all = sorted(keys);
    sorting_is_stable(keys);
    sorting_keeps_every_item(keys);
    let files = files_tree(root, nodes).at("files"@).elements();
    assert(files == values_of(all));
    assert forall|k: int| 0 <= k < all.len() implies (#[trigger] all[k]).0 == all[k].1.at(
        "path"@,
    ).text_or_empty() && found.contains(all[k].1) by {
        assert(all.contains(all[k]));
        assert(keys.contains(all[k]));
        let m = choose|m: int| 0 <= m < keys.len() && keys[m] == all[k];
        assert(found[m] == all[k].1);
    }
    assert forall|f: Json| #[trigger] files.contains(f) <==> found.contains(f) by {
        if files.contains(f) {
            let k = choose|k: int| 0 <= k < files.len() && files[k] == f;
            assert(all[k].1 == f);
        }
        if found.contains(f) {
            let m = choose|m: int| 0 <= m < found.len() && found[m] == f;
            assert(keys[m].1 == f);
            assert(keys.contains(keys[m]));
            assert(all.contains(keys[m]));
            let k = choose|k: int| 0 <= k < all.len() && all[k] == keys[m];
            assert(files[k] == f);
        }
    }
    assert forall|i: int, j: int| 0 <= i < j < files.len() implies !before(
        (#[trigger] files[j]).at("path"@).text_or_empty(),
        (#[trigger] files[i]).at("path"@).text_or_empty(),
    ) by {
        assert(files[i] == all[i].1 && files[j] == all[j].1);
        assert(!before(all[j].0, all[i].0));
    }
}

/// The editor gets a file with its content, its size, its name, and its path in the
/// workspace.
pub proof fn files_are_shown_whole(
    base: Seq<char>,
    path: Seq<char>,
    text: Seq<char>,
    size: int,
)
    ensures
        ({
            let f = file_tree(base, path, text, size);
            &&& f.at("content"@) == Json::Str(text)
            &&& f.at("size"@) == Json::Num(size)
            &&& last_name(path) matches Some(name) ==> f.at("name"@) == Json::Str(name)
            &&& relative(path, base) matches Some(rel) ==> f.at("path"@) == Json::Str(rel)
            &&& relative(path, base) is None ==> f.at("path"@) == Json::Str(path)
        }),
{
    broadcast use lemma_lookup_push;

    lemma_node_names();
}

/// A write puts the text in place of what the file held; only where it is to be appended
/// is what the file held kept before it.
pub proof fn writes_replace_or_append(current: Option<Seq<char>>, content: Seq<char>)
    ensures
        after_write(current, content, false) == content,
        current matches Some(old_text) ==> after_write(current, content, true) == old_text + content,
        current is None ==> after_write(current, content, true) == content,
{
}

/// Projects are looked for in the workspace itself and in every directory right in it
/// that is not left out, and nowhere else.
pub proof fn projects_are_looked_for(
    base: Seq<char>,
    entries: Seq<(Seq<char>, EntryKind)>,
    name: Seq<char>,
    kind: EntryKind,
)
    ensures
        project_places(base, seq![]).len() == 1,
        project_places(base, seq![])[0].path == base,
        project_places(base, seq![])[0].rel.len() == 0,
        last_name(base) matches Some(n) ==> project_places(base, seq![])[0].name == n,
        project_places(base, entries.push((name, kind))) == (if kind == EntryKind::Dir
            && !is_skipped(name) {
            project_places(base, entries).push(
                ProjectDirView { path: path_join(base, name), name, rel: name },
            )
        } else {
            project_places(base, entries)
        }),
{
    assert(entries.push((name, kind)).drop_last() =~= entries);
}

/// The pieces behind the first so many that count.
proof fn lemma_after_counted(all: Seq<Seq<char>>, n: int)
    requires
        0 <= n <= counted(all).len(),
    ensures
        counted(after_counted(all, n)) == counted(all).skip(n),
        forall|i: int|
            0 <= i < after_counted(all, n).len() ==> all.contains(
                #[trigger] after_counted(all, n)[i],
            ),
    decreases all.len(),
{
    if n <= 0 || all.len() == 0 {
        assert(counted(all).skip(n) =~= counted(all));
    } else {
        let one = seq![all[0]];
        let rest = all.drop_first();
        assert(all =~= one + rest);
        lemma_counted_concat(one, rest);
        assert(one.drop_last() =~= seq![]);
        assert(counted(seq![]) =~= seq![]);
        if counts(all[0]) {
            assert(counted(one) =~= one);
            lemma_after_counted(rest, n - 1);
            assert(counted(all).skip(n) =~= counted(rest).skip(n - 1));
        } else {
            assert(counted(one) =~= seq![]);
            assert(counted(all) =~= counted(rest));
            lemma_after_counted(rest, n);
        }
        let left = after_counted(all, n);
        assert forall|i: int| 0 <= i < left.len() implies all.contains(#[trigger] left[i]) by {
            let k = choose|k: int| 0 <= k < rest.len() && rest[k] == left[i];
            assert(all[k + 1] == left[i]);
        }
    }
}

/// The pieces from the first that counts on.
proof fn lemma_from_counted(all: Seq<Seq<char>>)
    ensures
        counted(from_counted(all)) == counted(all),
        from_counted(all).len() > 0 ==> counts(from_counted(all)[0]),
        forall|i: int|
            0 <= i < from_counted(all).len() ==> all.contains(#[trigger] from_counted(all)[i]),
    decreases all.len(),
{
    if all.len() > 0 && !counts(all[0]) {
        let one = seq![all[0]];
        let rest = all.drop_first();
        assert(all =~= one + rest);
        lemma_counted_concat(one, rest);
        assert(one.drop_last() =~= seq![]);
        assert(counted(seq![]) =~= seq![]);
        assert(counted(one) =~= seq![]);
        assert(counted(all) =~= counted(rest));
        lemma_from_counted(rest);
        let left = from_counted(all);
        assert forall|i: int| 0 <= i < left.len() implies all.contains(#[trigger] left[i]) by {
            let k = choose|k: int| 0 <= k < rest.len() && rest[k] == left[i];
            assert(all[k + 1] == left[i]);
        }
    }
}

/// The pieces up to the last that counts.
proof fn lemma_to_counted(all: Seq<Seq<char>>)
    ensures
        counted(to_counted(all)) == counted(all),
        to_counted(all).len() <= all.len(),
        to_counted(all) == all.take(to_counted(all).len() as int),
        to_counted(all).len() > 0 ==> counts(to_counted(all).last()),
    decreases all.len(),
{
    if all.len() > 0 && !counts(all.last()) {
        lemma_to_counted(all.drop_last());
        assert(to_counted(all) =~= all.take(to_counted(all).len() as int));
    } else {
        assert(all.take(all.len() as int) =~= all);
    }
}

/// Texts without slashes that are put together with slashes are the pieces again.
proof fn lemma_joined_pieces(names: Seq<Seq<char>>)
    requires
        names.len() > 0,
        forall|i: int| 0 <= i < names.len() ==> !(#[trigger] names[i]).contains('/'),
    ensures
        pieces(joined(names, "/"@), '/') == names,
    decreases names.len(),
{
    reveal_strlit("/");
    assert("/"@ =~= seq!['/']);
    lemma_one_piece(names.last());
    if names.len() == 1 {
        assert(names =~= seq![names[0]]);
    } else {
        let front = names.drop_last();
        assert forall|i: int| 0 <= i < front.len() implies !(#[trigger] front[i]).contains('/') by {
            assert(front[i] == names[i]);
        }
        lemma_joined_pieces(front);
        lemma_pieces_concat(joined(front, "/"@), names.last());
        assert(front + seq![names.last()] =~= names);
    }
}

/// What is left of an absolute path that lies under another, as pieces.
proof fn lemma_relative(path: Seq<char>, base: Seq<char>) -> (kept: Seq<Seq<char>>)
    requires
        is_abs(path),
        is_abs(base),
        lies_under(path, base),
    ensures
        relative(path, base) == Some(joined(kept, "/"@)),
        counted(kept) == components(path).skip(components(base).len() as int),
        forall|i: int| 0 <= i < kept.len() ==> !(#[trigger] kept[i]).contains('/'),
        kept.len() > 0 ==> counts(kept[0]) && counts(kept.last()),
{
    let all = pieces(path, '/');
    let n = components(base).len() as int;
    lemma_pieces_free(path);
    lemma_run_before(path, '/');
    assert(path[0] == '/');
    assert(run_before(path, '/') == 0);
    assert(all[0] =~= seq![]);
    let rest = all.skip(1);
    let one = seq![all[0]];
    assert(all =~= one + rest);
    lemma_counted_concat(one, rest);
    assert(one.drop_last() =~= seq![]);
    assert(counted(seq![]) =~= seq![]);
    assert(counted(one) =~= seq![]);
    assert(counted(all) =~= counted(rest));
    assert(head(path).len() == 1 && head(base).len() == 1);
    assert(components(path) =~= head(path) + counted(rest));
    let m = n - 1;
    let a = after_counted(rest, m);
    lemma_after_counted(rest, m);
    let b = from_counted(a);
    lemma_from_counted(a);
    let kept = to_counted(b);
    lemma_to_counted(b);
    assert(components(path).skip(n) =~= counted(rest).skip(m));
    assert forall|i: int| 0 <= i < kept.len() implies !(#[trigger] kept[i]).contains('/') by {
        assert(kept[i] == b[i]);
        let k = choose|k: int| 0 <= k < a.len() && a[k] == b[i];
        assert(a[k] == b[i]);
        let j = choose|j: int| 0 <= j < rest.len() && rest[j] == a[k];
        assert(all[j + 1] == rest[j]);
    }
    if kept.len() > 0 {
        assert(kept[0] == b[0]);
    }
    kept
}

/// A path is given relative to another exactly where it lies under it, and then as what
/// is left of its components behind those of the other.
pub proof fn relative_paths_are_what_is_left(path: Seq<char>, base: Seq<char>)
    requires
        is_abs(path),
        is_abs(base),
    ensures
        !lies_under(path, base) ==> relative(path, base) is None,
        lies_under(path, base) ==> (relative(path, base) matches Some(rel) && components(rel)
            == components(path).skip(components(base).len() as int) && !is_abs(rel)),
{
    if lies_under(path, base) {
        let kept = lemma_relative(path, base);
        let rel = joined(kept, "/"@);
        if kept.len() == 0 {
            assert(rel =~= seq![]);
            lemma_run_before(rel, '/');
            assert(pieces(rel, '/') =~= seq![rel]);
            lemma_one_counted(rel);
            reveal_strlit(".");
            assert(components(rel) =~= counted(kept));
        } else {
            lemma_joined_pieces(kept);
            if is_abs(rel) {
                lemma_run_before(rel, '/');
                assert(run_before(rel, '/') == 0);
                assert(pieces(rel, '/')[0] =~= seq![]);
            }
            assert(head(rel) =~= seq![]);
            assert(components(rel) =~= counted(kept));
        }
    }
}

/// A single piece counts or not.
proof fn lemma_one_counted(piece: Seq<char>)
    ensures
        counted(seq![piece]) == (if counts(piece) {
            seq![piece]
        } else {
            seq![]
        }),
{
    let one = seq![piece];
    assert(one.drop_last() =~= seq![]);
    assert(counted(seq![]) =~= seq![]);
    assert(one.last() == piece);
    assert(counted(one) =~= (if counts(piece) {
        seq![piece]
    } else {
        seq![]
    }));
}

/// A file right in a directory has its name as its last name, lies under the directory,
/// is given by its name relative to it, and lies in it.
pub proof fn files_are_named_in_their_directory(dir: Seq<char>, name: Seq<char>)
    requires
        is_abs(dir),
        is_name(name),
    ensures
        last_name(path_join(dir, name)) == Some(name),
        lies_under(path_join(dir, name), dir),
        relative(path_join(dir, name), dir) == Some(name),
        parent_of(path_join(dir, name)) matches Some(up) && components(up) == components(dir),
{
    let path = path_join(dir, name);
    lemma_join_name(dir, name);
    reveal_strlit("/");
    assert(name != "/"@) by {
        if name == "/"@ {
            assert(name[0] == '/');
            assert(name.contains('/'));
        }
    }
    assert(components(path).last() == name);
    assert(components(dir).is_prefix_of(components(path)));
    let kept = lemma_relative(path, dir);
    let n = components(dir).len() as int;
    assert(components(path).skip(n) =~= seq![name]);
    lemma_ends_counted(kept, name);
    assert(joined(seq![name], "/"@) == name);
    assert(components(path).drop_last() =~= components(dir));
    let k = (path.len() - name.len()) as int;
    assert(!is_abs(name)) by {
        if is_abs(name) {
            assert(name.contains(name[0]));
        }
    }
    if dir.last() == '/' {
        assert(path.take(k) =~= dir);
    } else {
        assert(path.take(k - 1) =~= dir);
    }
    lemma_beginning(
        path,
        components(dir),
        0,
        if dir.last() == '/' {
            k
        } else {
            k - 1
        },
    );
}

/// Pieces that begin and end with one that counts, of which only one counts.
proof fn lemma_ends_counted(kept: Seq<Seq<char>>, name: Seq<char>)
    requires
        counted(kept) == seq![name],
        kept.len() > 0 ==> counts(kept[0]) && counts(kept.last()),
    ensures
        kept == seq![name],
{
    if kept.len() == 0 {
        assert(counted(kept) =~= seq![]);
        assert(false);
    }
    if kept.len() > 1 {
        let front = kept.drop_last();
        let one = seq![front[0]];
        let rest = front.drop_first();
        assert(front =~= one + rest);
        lemma_counted_concat(one, rest);
        lemma_one_counted(front[0]);
        assert(counted(kept) == counted(front).push(kept.last()));
        assert(counted(front).len() >= 1);
        assert(counted(kept).len() >= 2);
        assert(false);
    }
    assert(kept =~= seq![kept[0]]);
    lemma_one_counted(kept[0]);
    assert(seq![kept[0]][0] == seq![name][0]);
}

/// A beginning of a path with those components is found where there is one.
proof fn lemma_beginning(s: Seq<char>, want: Seq<Seq<char>>, n: int, k: int)
    requires
        0 <= n <= k < s.len(),
        components(s.take(k)) == want,
    ensures
        beginning_with(s, want, n) matches Some(p) && components(p) == want && p.is_prefix_of(s),
    decreases k - n,
{
    if components(s.take(n)) != want {
        lemma_beginning(s, want, n + 1, k);
    }
}

/// The directory that a path lies in is a beginning of the path, without its last
/// component; the root and the empty path lie in none.
pub proof fn parents_lose_the_last_component(s: Seq<char>)
    ensures
        parent_of(s) matches Some(p) ==> p.is_prefix_of(s) && components(p) == components(
            s,
        ).drop_last(),
        components(s).len() == 0 || components(s).last() == "/"@ ==> parent_of(s) is None,
{
    if parent_of(s) is Some {
        lemma_beginning_is(s, components(s).drop_last(), 0);
    }
}

/// What the beginning of a path is that was found.
proof fn lemma_beginning_is(s: Seq<char>, want: Seq<Seq<char>>, n: int)
    requires
        beginning_with(s, want, n) is Some,
    ensures
        beginning_with(s, want, n)->0.is_prefix_of(s),
        components(beginning_with(s, want, n)->0) == want,
    decreases s.len() - n,
{
    if components(s.take(n)) != want {
        lemma_beginning_is(s, want, n + 1);
    }
}

/// A path is joined to another with one slash between them; an absolute path is not
/// joined but taken as it is.
pub proof fn paths_are_joined_with_a_slash(base: Seq<char>, path: Seq<char>)
    ensures
        is_abs(path) ==> path_join(base, path) == path,
        !is_abs(path) && base.len() > 0 && base.last() != '/' ==> path_join(base, path) == base
            + "/"@ + path,
        !is_abs(path) && base.len() > 0 && base.last() == '/' ==> path_join(base, path) == base
            + path,
        !is_abs(path) && base.len() == 0 ==> path_join(base, path) == path,
        is_abs(path) <==> path.len() > 0 && path[0] == '/',
{
    if base.len() == 0 {
        assert(base + path =~= path);
    }
}

/// An entry stands in the tree as what it is: a directory with its children, a file with
/// its size and when it was changed, each under its name and at its path.
pub proof fn entries_become_nodes(entry: TreeEntry, path: Seq<char>, children: Seq<Json>)
    ensures
        node_of(entry, path, children).at("name"@) == Json::Str(entry.name@),
        node_of(entry, path, children).at("path"@) == Json::Str(path),
        entry.kind == EntryKind::Dir ==> node_of(entry, path, children).at("type"@) == Json::Str(
            "dir"@,
        ) && node_of(entry, path, children).at("children"@) == Json::List(children),
        entry.kind != EntryKind::Dir ==> node_of(entry, path, children).at("type"@) == Json::Str(
            "file"@,
        ) && node_of(entry, path, children).at("size"@) == Json::Num(entry.size as int) && node_of(
            entry,
            path,
            children,
        ).at("mtime"@) == Json::Num(entry.mtime as int),
{
    nodes_say_what_they_are(entry.name@, path, children, entry.size as int, entry.mtime as int);
}

/// A file right in a directory is shown by its name, where the name has no backslash in
/// it; a backslash is shown as a slash, and a path that lies elsewhere is shown whole.
pub proof fn files_are_shown_by_name(dir: Seq<char>, name: Seq<char>, elsewhere: Seq<char>)
    requires
        is_abs(dir),
        is_name(name),
        !name.contains('\\'),
        !elsewhere.contains('\\'),
    ensures
        shown(path_join(dir, name), dir) == name,
        !lies_under(elsewhere, dir) ==> shown(elsewhere, dir) == elsewhere,
{
    reveal_strlit("\\");
    files_are_named_in_their_directory(dir, name);
    lemma_no_backslash(name);
    lemma_no_backslash(elsewhere);
}

/// A text without a backslash is not changed where backslashes are replaced.
proof fn lemma_no_backslash(s: Seq<char>)
    requires
        !s.contains('\\'),
    ensures
        replaced(s, "\\"@, "/"@) == s,
{
    reveal_strlit("\\");
    assert(has(s, "\\"@) == false) by {
        if has(s, "\\"@) {
            let k = choose|k: int| #[trigger] stands_at(s, "\\"@, k);
            assert(s.subrange(k, k + 1)[0] == s[k]);
        }
    }
    nothing_to_replace(s, "\\"@, "/"@);
}

/// The names of what is answered differ.
proof fn lemma_response_names()
    ensures
        "status"@ != "path"@,
        "status"@ != "bytes"@,
        "status"@ != "root"@,
        "status"@ != "tree"@,
        "status"@ != "files"@,
        "path"@ != "bytes"@,
        "path"@ != "root"@,
        "path"@ != "tree"@,
        "path"@ != "files"@,
        "bytes"@ != "root"@,
        "bytes"@ != "tree"@,
        "bytes"@ != "files"@,
        "root"@ != "tree"@,
        "root"@ != "files"@,
        "tree"@ != "files"@,
{
    reveal_strlit("status");
    reveal_strlit("path");
    reveal_strlit("bytes");
    reveal_strlit("root");
    reveal_strlit("tree");
    reveal_strlit("files");
    assert("status"@.len() == 6);
    assert("path"@.len() == 4);
    assert("bytes"@.len() == 5);
    assert("root"@.len() == 4);
    assert("tree"@.len() == 4);
    assert("files"@.len() == 5);
    assert("path"@[0] == 'p' && "root"@[0] == 'r');
    assert("path"@[0] == 'p' && "tree"@[0] == 't');
    assert("bytes"@[0] == 'b' && "files"@[0] == 'f');
    assert("root"@[0] == 'r' && "tree"@[0] == 't');
}


/// A file that was written or deleted is named, and how many bytes were written is told;
/// and where there is no workspace there are no files.
pub proof fn changes_to_files_are_answered(path: Seq<char>, content: Seq<char>)
    ensures
        write_file_response_tree(path, content).at("status"@) == Json::Str("ok"@),
        write_file_response_tree(path, content).at("path"@) == Json::Str(path),
        write_file_response_tree(path, content).at("bytes"@) == Json::Num(bytes_in(content) as int),
        delete_file_response_tree(path).at("status"@) == Json::Str("ok"@),
        delete_file_response_tree(path).at("path"@) == Json::Str(path),
        no_files_response_tree().at("root"@) == Json::Str(Seq::empty()),
        no_files_response_tree().at("tree"@) == Json::List(Seq::empty()),
        no_files_response_tree().at("files"@) == Json::List(Seq::empty()),
{
    broadcast use lemma_lookup_push;

    lemma_response_names();
}

} // verus!
