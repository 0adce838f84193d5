//! A user's claim ledger and its bytes.
//!
//! The ledger has no fixed size. Its identity comes first. Each of its two
//! lists follows as a count of four bytes and then the items. A claimed
//! identifier is its 32 bytes. A score is the length of its name in four
//! bytes, the name in UTF-8, and the value in eight bytes.

use crate::wire::{
    array32, lemma_array32, lemma_array32_of_view, lemma_u32_round_trip, lemma_u64_round_trip,
    push_bytes, push_bytes32, push_u32_le, push_u64_le, read_bytes32, read_u32_le, read_u64_le,
    string_from_utf8, u32_bytes, u32_le, u64_bytes, u64_le,
};
use vstd::prelude::*;
use vstd::utf8::{decode_utf8, encode_utf8, valid_utf8};

verus! {

/// What one user has claimed, and the user's scores.
#[derive(Debug, Clone, PartialEq, Eq)]
pub struct UserAchievements {
    /// The user's identity.
    pub user: [u8; 32],
    /// The identifiers of the achievements that the user has claimed, in
    /// the order of the claims.
    pub claimed_achievements: Vec<[u8; 32]>,
    /// The user's score under each named metric.
    pub scores: Vec<(String, u64)>,
}

/// A ledger with its lists as sequences and its names as text.
pub ghost struct UserAchievementsView {
    pub user: [u8; 32],
    pub claimed_achievements: Seq<[u8; 32]>,
    pub scores: Seq<(Seq<char>, u64)>,
}

impl View for UserAchievements {
    type V = UserAchievementsView;

    open spec fn view(&self) -> UserAchievementsView {
        UserAchievementsView {
            user: self.user,
            claimed_achievements: self.claimed_achievements@,
            scores: self.scores.deep_view(),
        }
    }
}

/// The bytes of a list of identifiers, one after the other.
pub open spec fn ids_bytes(ids: Seq<[u8; 32]>) -> Seq<u8>
    decreases ids.len(),
{
    if ids.len() == 0 {
        Seq::empty()
    } else {
        ids[0]@ + ids_bytes(ids.drop_first())
    }
}

/// Whether the name of a score can be written: its length in UTF-8 must fit
/// in four bytes.
pub open spec fn name_fits(score: (Seq<char>, u64)) -> bool {
    encode_utf8(score.0).len() <= u32::MAX
}

/// The bytes of one score: the length of the name, the name, the value.
pub open spec fn score_bytes(score: (Seq<char>, u64)) -> Seq<u8> {
    u32_bytes(encode_utf8(score.0).len() as u32) + encode_utf8(score.0) + u64_bytes(score.1)
}

/// The bytes of a list of scores, one after the other.
pub open spec fn scores_bytes(scores: Seq<(Seq<char>, u64)>) -> Seq<u8>
    decreases scores.len(),
{
    if scores.len() == 0 {
        Seq::empty()
    } else {
        score_bytes(scores[0]) + scores_bytes(scores.drop_first())
    }
}

/// Reads `count` identifiers from `bytes` at the place `at`: the
/// identifiers, behind those in `read`, and the place behind the last.
/// `None` where the bytes end too early.
pub open spec fn parse_ids(bytes: Seq<u8>, at: int, count: nat, read: Seq<[u8; 32]>) -> Option<
    (Seq<[u8; 32]>, int),
>
    decreases count,
{
    if count == 0 {
        Some((read, at))
    } else if at + 32 > bytes.len() {
        None
    } else {
        parse_ids(
            bytes,
            at + 32,
            (count - 1) as nat,
            read.push(array32(bytes.subrange(at, at + 32))),
        )
    }
}

/// Reads one score from `bytes` at the place `at`: the score and the place
/// behind it. `None` where the bytes end too early or the name is not
/// UTF-8.
#[verifier::opaque]
pub open spec fn parse_score(bytes: Seq<u8>, at: int) -> Option<((Seq<char>, u64), int)> {
    if at + 4 > bytes.len() {
        None
    } else {
        let name_len = u32_le(bytes.subrange(at, at + 4)) as int;
        let name = bytes.subrange(at + 4, at + 4 + name_len);
        if at + 4 + name_len + 8 > bytes.len() || !valid_utf8(name) {
            None
        } else {
            Some(
                (
                    (
                        decode_utf8(name),
                        u64_le(bytes.subrange(at + 4 + name_len, at + 4 + name_len + 8)),
                    ),
                    at + 4 + name_len + 8,
                ),
            )
        }
    }
}

/// Reads `count` scores from `bytes` at the place `at`: the scores, behind
/// those in `read`, and the place behind the last.
pub open spec fn parse_scores(
    bytes: Seq<u8>,
    at: int,
    count: nat,
    read: Seq<(Seq<char>, u64)>,
) -> Option<(Seq<(Seq<char>, u64)>, int)>
    decreases count,
{
    if count == 0 {
        Some((read, at))
    } else {
        match parse_score(bytes, at) {
            None => None,
            Some((score, next)) => parse_scores(
                bytes,
                next,
                (count - 1) as nat,
                read.push(score),
            ),
        }
    }
}

impl UserAchievementsView {
    /// Whether the ledger can be written: the length of each list, and of
    /// each name in UTF-8, must fit in four bytes.
    pub open spec fn fits(self) -> bool {
        &&& self.claimed_achievements.len() <= u32::MAX
        &&& self.scores.len() <= u32::MAX
        &&& forall|i: int| 0 <= i < self.scores.len() ==> name_fits(#[trigger] self.scores[i])
    }

    /// The bytes of this ledger.
    pub open spec fn spec_encode(self) -> Seq<u8> {
        self.user@ + u32_bytes(self.claimed_achievements.len() as u32) + ids_bytes(
            self.claimed_achievements,
        ) + u32_bytes(self.scores.len() as u32) + scores_bytes(self.scores)
    }

    /// The ledger that `bytes` hold, all of them: `None` where they end too
    /// early, go on behind the last score, or hold a name that is not UTF-8.
    pub open spec fn spec_decode(bytes: Seq<u8>) -> Option<UserAchievementsView> {
        if bytes.len() < 36 {
            None
        } else {
            match parse_ids(bytes, 36, u32_le(bytes.subrange(32, 36)) as nat, Seq::empty()) {
                None => None,
                Some((claimed_achievements, at)) => {
                    if at + 4 > bytes.len() {
                        None
                    } else {
                        match parse_scores(
                            bytes,
                            at + 4,
                            u32_le(bytes.subrange(at, at + 4)) as nat,
                            Seq::empty(),
                        ) {
                            None => None,
                            Some((scores, end)) => {
                                if end != bytes.len() {
                                    None
                                } else {
                                    Some(
                                        UserAchievementsView {
                                            user: array32(bytes.subrange(0, 32)),
                                            claimed_achievements,
                                            scores,
                                        },
                                    )
                                }
                            },
                        }
                    }
                },
            }
        }
    }
}

/// The bytes of a list of identifiers with one more at its end.
proof fn lemma_ids_bytes_push(ids: Seq<[u8; 32]>, id: [u8; 32])
    ensures
        ids_bytes(ids.push(id)) == ids_bytes(ids) + id@,
    decreases ids.len(),
{
    if ids.len() == 0 {
        assert(ids.push(id).drop_first() =~= ids);
        assert(ids_bytes(ids.push(id)) =~= ids_bytes(ids) + id@);
    } else {
        lemma_ids_bytes_push(ids.drop_first(), id);
        assert(ids.push(id).drop_first() =~= ids.drop_first().push(id));
        assert(ids_bytes(ids.push(id)) =~= ids_bytes(ids) + id@);
    }
}

/// The bytes of a list of scores with one more at its end.
proof fn lemma_scores_bytes_push(scores: Seq<(Seq<char>, u64)>, score: (Seq<char>, u64))
    ensures
        scores_bytes(scores.push(score)) == scores_bytes(scores) + score_bytes(score),
    decreases scores.len(),
{
    if scores.len() == 0 {
        assert(scores.push(score).drop_first() =~= scores);
        assert(scores_bytes(scores.push(score)) =~= scores_bytes(scores) + score_bytes(score));
    } else {
        lemma_scores_bytes_push(scores.drop_first(), score);
        assert(scores.push(score).drop_first() =~= scores.drop_first().push(score));
        assert(scores_bytes(scores.push(score)) =~= scores_bytes(scores) + score_bytes(score));
    }
}

/// A list of identifiers takes 32 bytes for each.
proof fn lemma_ids_bytes_len(ids: Seq<[u8; 32]>)
    ensures
        ids_bytes(ids).len() == 32 * ids.len(),
    decreases ids.len(),
{
    if ids.len() > 0 {
        lemma_ids_bytes_len(ids.drop_first());
    }
}

/// Where the bytes at `at` are those of a list of identifiers, reading as
/// many identifiers there gives that list.
proof fn lemma_parse_ids(bytes: Seq<u8>, at: int, ids: Seq<[u8; 32]>, read: Seq<[u8; 32]>)
    requires
        0 <= at,
        at + 32 * ids.len() <= bytes.len(),
        bytes.subrange(at, at + 32 * ids.len()) == ids_bytes(ids),
    ensures
        parse_ids(bytes, at, ids.len(), read) == Some((read + ids, at + 32 * ids.len())),
    decreases ids.len(),
{
    if ids.len() == 0 {
        assert(read + ids =~= read);
    } else {
        let rest = ids.drop_first();
        let all = bytes.subrange(at, at + 32 * ids.len());
        lemma_ids_bytes_len(rest);
        assert(bytes.subrange(at, at + 32) =~= all.subrange(0, 32));
        assert(all.subrange(0, 32) =~= ids[0]@);
        assert(bytes.subrange(at + 32, at + 32 + 32 * rest.len()) =~= all.subrange(
            32,
            all.len() as int,
        ));
        assert(all.subrange(32, all.len() as int) =~= ids_bytes(rest));
        lemma_array32_of_view(ids[0]);
        lemma_parse_ids(bytes, at + 32, rest, read.push(ids[0]));
        assert(read.push(ids[0]) + rest =~= read + ids);
    }
}

/// Where the bytes at `at` are those of a score whose name fits, reading a
/// score there gives that score.
proof fn lemma_parse_score(bytes: Seq<u8>, at: int, score: (Seq<char>, u64))
    requires
        0 <= at,
        name_fits(score),
        at + score_bytes(score).len() <= bytes.len(),
        bytes.subrange(at, at + score_bytes(score).len()) == score_bytes(score),
    ensures
        score_bytes(score).len() == encode_utf8(score.0).len() + 12,
        parse_score(bytes, at) == Some((score, at + score_bytes(score).len())),
{
    reveal(parse_score);
    let name = encode_utf8(score.0);
    let n = name.len() as int;
    let all = bytes.subrange(at, at + score_bytes(score).len());
    lemma_u32_round_trip(n as u32, Seq::empty());
    lemma_u64_round_trip(score.1, Seq::empty());
    assert(score_bytes(score).len() == n + 12);
    assert(bytes.subrange(at, at + 4) =~= all.subrange(0, 4));
    assert(all.subrange(0, 4) =~= u32_bytes(n as u32));
    assert(bytes.subrange(at + 4, at + 4 + n) =~= all.subrange(4, 4 + n));
    assert(all.subrange(4, 4 + n) =~= name);
    assert(bytes.subrange(at + 4 + n, at + 4 + n + 8) =~= all.subrange(4 + n, 12 + n));
    assert(all.subrange(4 + n, 12 + n) =~= u64_bytes(score.1));
    vstd::utf8::encode_utf8_valid_utf8(score.0);
    vstd::utf8::encode_utf8_decode_utf8(score.0);
}

/// Where the bytes at `at` are those of a list of scores whose names fit,
/// reading as many scores there gives that list.
proof fn lemma_parse_scores(
    bytes: Seq<u8>,
    at: int,
    scores: Seq<(Seq<char>, u64)>,
    read: Seq<(Seq<char>, u64)>,
)
    requires
        0 <= at,
        forall|i: int| 0 <= i < scores.len() ==> name_fits(#[trigger] scores[i]),
        at + scores_bytes(scores).len() <= bytes.len(),
        bytes.subrange(at, at + scores_bytes(scores).len()) == scores_bytes(scores),
    ensures
        parse_scores(bytes, at, scores.len(), read) == Some(
            (read + scores, at + scores_bytes(scores).len()),
        ),
    decreases scores.len(),
{
    if scores.len() == 0 {
        assert(read + scores =~= read);
    } else {
        let first = scores[0];
        let rest = scores.drop_first();
        let size = score_bytes(first).len() as int;
        let all = bytes.subrange(at, at + scores_bytes(scores).len());
        assert(all == score_bytes(first) + scores_bytes(rest));
        assert(name_fits(first));
        assert(bytes.subrange(at, at + size) == score_bytes(first)) by {
            assert(bytes.subrange(at, at + size) =~= all.subrange(0, size));
            assert(all.subrange(0, size) =~= score_bytes(first));
        }
        lemma_parse_score(bytes, at, first);
        assert(bytes.subrange(at + size, at + size + scores_bytes(rest).len()) == scores_bytes(
            rest,
        )) by {
            assert(bytes.subrange(at + size, at + size + scores_bytes(rest).len())
                =~= all.subrange(size, all.len() as int));
            assert(all.subrange(size, all.len() as int) =~= scores_bytes(rest));
        }
        assert forall|i: int| 0 <= i < rest.len() implies name_fits(#[trigger] rest[i]) by {
            assert(rest[i] == scores[i + 1]);
        }
        lemma_parse_scores(bytes, at + size, rest, read.push(first));
        assert(read.push(first) + rest =~= read + scores);
    }
}

/// A ledger that is written and read again is the same ledger.
pub proof fn lemma_user_achievements_round_trip(ledger: UserAchievementsView)
    requires
        ledger.fits(),
    ensures
        UserAchievementsView::spec_decode(ledger.spec_encode()) == Some(ledger),
{
    let bytes = ledger.spec_encode();
    let ids = ledger.claimed_achievements;
    let scores = ledger.scores;
    let at: int = 36 + 32 * (ids.len() as int);
    lemma_ids_bytes_len(ids);
    lemma_u32_round_trip(ids.len() as u32, Seq::empty());
    lemma_u32_round_trip(scores.len() as u32, Seq::empty());
    lemma_array32_of_view(ledger.user);
    assert(bytes.subrange(0, 32) =~= ledger.user@);
    assert(bytes.subrange(32, 36) =~= u32_bytes(ids.len() as u32));
    assert(bytes.subrange(36, at) =~= ids_bytes(ids));
    lemma_parse_ids(bytes, 36, ids, Seq::empty());
    assert(Seq::<[u8; 32]>::empty() + ids =~= ids);
    assert(bytes.subrange(at, at + 4) =~= u32_bytes(scores.len() as u32));
    assert(bytes.subrange(at + 4, at + 4 + scores_bytes(scores).len()) =~= scores_bytes(scores));
    lemma_parse_scores(bytes, at + 4, scores, Seq::empty());
    assert(Seq::<(Seq<char>, u64)>::empty() + scores =~= scores);
}

/// Identifiers that were read are the bytes they were read from: reading
/// keeps what was read before, adds as many identifiers as were asked for,
/// and the bytes of those are the bytes between the two places.
proof fn lemma_parsed_ids(bytes: Seq<u8>, at: int, count: nat, read: Seq<[u8; 32]>)
    requires
        0 <= at <= bytes.len(),
        parse_ids(bytes, at, count, read) is Some,
    ensures
        ({
            let (ids, end) = parse_ids(bytes, at, count, read)->Some_0;
            &&& end == at + 32 * count
            &&& end <= bytes.len()
            &&& ids.len() == read.len() + count
            &&& ids.subrange(0, read.len() as int) == read
            &&& ids_bytes(ids.subrange(read.len() as int, ids.len() as int)) == bytes.subrange(
                at,
                end,
            )
        }),
    decreases count,
{
    let (ids, end) = parse_ids(bytes, at, count, read)->Some_0;
    if count == 0 {
        assert(ids.subrange(0, read.len() as int) =~= read);
        assert(ids.subrange(read.len() as int, ids.len() as int) =~= Seq::empty());
        assert(bytes.subrange(at, end) =~= Seq::empty());
    } else {
        let first = array32(bytes.subrange(at, at + 32));
        lemma_array32(bytes.subrange(at, at + 32));
        lemma_parsed_ids(bytes, at + 32, (count - 1) as nat, read.push(first));
        let n = read.len() as int;
        let tail = ids.subrange(n, ids.len() as int);
        assert(ids.subrange(0, n + 1) == read.push(first));
        assert(ids.subrange(0, n) =~= ids.subrange(0, n + 1).subrange(0, n));
        assert(ids.subrange(0, n) =~= read);
        assert(tail[0] == ids.subrange(0, n + 1)[n]);
        assert(tail.drop_first() =~= ids.subrange(n + 1, ids.len() as int));
        assert(bytes.subrange(at, end) =~= bytes.subrange(at, at + 32) + bytes.subrange(
            at + 32,
            end,
        ));
    }
}

/// A score that was read is the bytes it was read from, and its name fits.
proof fn lemma_parsed_score(bytes: Seq<u8>, at: int)
    requires
        0 <= at <= bytes.len(),
        parse_score(bytes, at) is Some,
    ensures
        ({
            let (score, next) = parse_score(bytes, at)->Some_0;
            &&& at <= next <= bytes.len()
            &&& name_fits(score)
            &&& score_bytes(score) == bytes.subrange(at, next)
        }),
{
    reveal(parse_score);
    let (score, next) = parse_score(bytes, at)->Some_0;
    let n = u32_le(bytes.subrange(at, at + 4)) as int;
    let name = bytes.subrange(at + 4, at + 4 + n);
    vstd::utf8::decode_utf8_encode_utf8(name);
    lemma_u32_round_trip(0, bytes.subrange(at, at + 4));
    lemma_u64_round_trip(0, bytes.subrange(at + 4 + n, at + 4 + n + 8));
    assert(encode_utf8(score.0) == name);
    assert(bytes.subrange(at, next) =~= bytes.subrange(at, at + 4) + name + bytes.subrange(
        at + 4 + n,
        at + 4 + n + 8,
    ));
}

/// Scores that were read are the bytes they were read from: reading keeps
/// what was read before, adds as many scores as were asked for, and the
/// bytes of those are the bytes between the two places.
proof fn lemma_parsed_scores(
    bytes: Seq<u8>,
    at: int,
    count: nat,
    read: Seq<(Seq<char>, u64)>,
)
    requires
        0 <= at <= bytes.len(),
        parse_scores(bytes, at, count, read) is Some,
    ensures
        ({
            let (scores, end) = parse_scores(bytes, at, count, read)->Some_0;
            &&& at <= end <= bytes.len()
            &&& scores.len() == read.len() + count
            &&& scores.subrange(0, read.len() as int) == read
            &&& scores_bytes(scores.subrange(read.len() as int, scores.len() as int))
                == bytes.subrange(at, end)
        }),
    decreases count,
{
    let (scores, end) = parse_scores(bytes, at, count, read)->Some_0;
    if count == 0 {
        assert(scores.subrange(0, read.len() as int) =~= read);
        assert(scores.subrange(read.len() as int, scores.len() as int) =~= Seq::empty());
        assert(bytes.subrange(at, end) =~= Seq::empty());
    } else {
        let (first, next) = parse_score(bytes, at)->Some_0;
        let longer = read.push(first);
        assert(parse_scores(bytes, at, count, read) == parse_scores(
            bytes,
            next,
            (count - 1) as nat,
            longer,
        ));
        lemma_parsed_score(bytes, at);
        lemma_parsed_scores(bytes, next, (count - 1) as nat, longer);
        let n = read.len() as int;
        let tail = scores.subrange(n, scores.len() as int);
        let shorter = scores.subrange(n + 1, scores.len() as int);
        assert(scores.subrange(0, n + 1) == longer);
        assert(scores.subrange(0, n) =~= read) by {
            assert(scores.subrange(0, n) =~= scores.subrange(0, n + 1).subrange(0, n));
            assert(longer.subrange(0, n) =~= read);
        }
        assert(scores[n] == first) by {
            assert(scores[n] == scores.subrange(0, n + 1)[n]);
        }
        assert(scores_bytes(tail) == bytes.subrange(at, end)) by {
            assert(tail[0] == first);
            assert(tail.drop_first() =~= shorter);
            assert(scores_bytes(tail) == score_bytes(first) + scores_bytes(shorter));
            assert(bytes.subrange(at, end) =~= bytes.subrange(at, next) + bytes.subrange(
                next,
                end,
            ));
        }
    }
}

/// The names of scores that were read fit, where those of the scores read
/// before do.
proof fn lemma_parsed_names_fit(
    bytes: Seq<u8>,
    at: int,
    count: nat,
    read: Seq<(Seq<char>, u64)>,
)
    requires
        0 <= at <= bytes.len(),
        parse_scores(bytes, at, count, read) is Some,
        forall|i: int| 0 <= i < read.len() ==> name_fits(#[trigger] read[i]),
    ensures
        ({
            let (scores, end) = parse_scores(bytes, at, count, read)->Some_0;
            forall|i: int| 0 <= i < scores.len() ==> name_fits(#[trigger] scores[i])
        }),
    decreases count,
{
    if count > 0 {
        let (first, next) = parse_score(bytes, at)->Some_0;
        let longer = read.push(first);
        lemma_parsed_score(bytes, at);
        assert forall|i: int| 0 <= i < longer.len() implies name_fits(#[trigger] longer[i]) by {
            if i < read.len() {
                assert(longer[i] == read[i]);
            }
        }
        lemma_parsed_names_fit(bytes, next, (count - 1) as nat, longer);
    }
}

/// Bytes that hold a ledger are the bytes of that ledger.
pub proof fn lemma_user_achievements_bytes(bytes: Seq<u8>)
    requires
        UserAchievementsView::spec_decode(bytes) is Some,
    ensures
        UserAchievementsView::spec_decode(bytes)->Some_0.fits(),
        UserAchievementsView::spec_decode(bytes)->Some_0.spec_encode() == bytes,
{
    let ledger = UserAchievementsView::spec_decode(bytes)->Some_0;
    let count = u32_le(bytes.subrange(32, 36));
    lemma_parsed_ids(bytes, 36, count as nat, Seq::empty());
    let (ids, at) = parse_ids(bytes, 36, count as nat, Seq::empty())->Some_0;
    let score_count = u32_le(bytes.subrange(at, at + 4));
    lemma_parsed_scores(bytes, at + 4, score_count as nat, Seq::empty());
    lemma_parsed_names_fit(bytes, at + 4, score_count as nat, Seq::empty());
    let (scores, end) = parse_scores(bytes, at + 4, score_count as nat, Seq::empty())->Some_0;
    lemma_array32(bytes.subrange(0, 32));
    lemma_u32_round_trip(0, bytes.subrange(32, 36));
    lemma_u32_round_trip(0, bytes.subrange(at, at + 4));
    assert(ids.subrange(0, ids.len() as int) =~= ids);
    assert(scores.subrange(0, scores.len() as int) =~= scores);
    assert(bytes =~= bytes.subrange(0, 32) + bytes.subrange(32, 36) + bytes.subrange(36, at)
        + bytes.subrange(at, at + 4) + bytes.subrange(at + 4, end));
}

/// Appends the bytes of one score. Appends nothing, and says so, where the
/// name does not fit.
fn push_score(out: &mut Vec<u8>, name: &str, value: u64) -> (done: bool)
    ensures
        done == name_fits((name@, value)),
        done ==> final(out)@ == old(out)@ + score_bytes((name@, value)),
        !done ==> final(out)@ == old(out)@,
{
    let bytes: &[u8] = name.as_bytes();
    if bytes.len() > u32::MAX as usize {
        return false;
    }
    push_u32_le(out, bytes.len() as u32);
    push_bytes(out, bytes);
    push_u64_le(out, value);
    assert(out@ =~= old(out)@ + score_bytes((name@, value)));
    true
}

/// Appends the bytes of a list of identifiers.
fn push_ids(out: &mut Vec<u8>, ids: &Vec<[u8; 32]>)
    ensures
        final(out)@ == old(out)@ + ids_bytes(ids@),
{
    let count: usize = ids.len();
    let mut i: usize = 0;
    proof {
        assert(ids@.take(0) =~= Seq::empty());
        assert(out@ =~= old(out)@ + ids_bytes(ids@.take(0)));
    }
    while i < count
        invariant
            i <= count,
            count == ids@.len(),
            out@ == old(out)@ + ids_bytes(ids@.take(i as int)),
        decreases count - i,
    {
        push_bytes32(out, &ids[i]);
        proof {
            lemma_ids_bytes_push(ids@.take(i as int), ids@[i as int]);
            assert(ids@.take(i + 1) =~= ids@.take(i as int).push(ids@[i as int]));
            assert(out@ =~= old(out)@ + ids_bytes(ids@.take(i + 1)));
        }
        i += 1;
    }
    assert(ids@.take(count as int) =~= ids@);
}

/// Appends the bytes of a list of scores, as far as the names fit: says
/// whether all of them did.
fn push_scores(out: &mut Vec<u8>, scores: &Vec<(String, u64)>) -> (done: bool)
    ensures
        done == (forall|i: int|
            0 <= i < scores.deep_view().len() ==> name_fits(#[trigger] scores.deep_view()[i])),
        done ==> final(out)@ == old(out)@ + scores_bytes(scores.deep_view()),
{
    let count: usize = scores.len();
    let ghost all = scores.deep_view();
    let mut j: usize = 0;
    proof {
        assert(all.take(0) =~= Seq::empty());
        assert(out@ =~= old(out)@ + scores_bytes(all.take(0)));
    }
    while j < count
        invariant
            j <= count,
            count == scores@.len(),
            all == scores.deep_view(),
            out@ == old(out)@ + scores_bytes(all.take(j as int)),
            forall|k: int| 0 <= k < j ==> name_fits(#[trigger] all[k]),
        decreases count - j,
    {
        let ghost before = out@;
        assert(all[j as int] == (scores@[j as int].0@, scores@[j as int].1));
        if !push_score(out, scores[j].0.as_str(), scores[j].1) {
            return false;
        }
        proof {
            lemma_scores_bytes_push(all.take(j as int), all[j as int]);
            assert(all.take(j + 1) =~= all.take(j as int).push(all[j as int]));
            assert(out@ =~= old(out)@ + scores_bytes(all.take(j + 1)));
        }
        j += 1;
    }
    assert(all.take(count as int) =~= all);
    true
}

/// Reads `count` identifiers at the place `at`: the identifiers and the
/// place behind them.
fn read_ids(data: &[u8], at: usize, count: u32) -> (r: Option<(Vec<[u8; 32]>, usize)>)
    requires
        at <= data@.len(),
    ensures
        match parse_ids(data@, at as int, count as nat, Seq::empty()) {
            Some((ids, end)) => r is Some && r->Some_0.0@ == ids && r->Some_0.1 == end,
            None => r is None,
        },
{
    let len: usize = data.len();
    let mut ids: Vec<[u8; 32]> = Vec::new();
    let mut place: usize = at;
    let mut i: u32 = 0;
    while i < count
        invariant
            len == data@.len(),
            place <= len,
            i <= count,
            parse_ids(data@, at as int, count as nat, Seq::empty()) == parse_ids(
                data@,
                place as int,
                (count - i) as nat,
                ids@,
            ),
        decreases count - i,
    {
        if len - place < 32 {
            return None;
        }
        let id: [u8; 32] = read_bytes32(data, place);
        ids.push(id);
        place += 32;
        i += 1;
    }
    Some((ids, place))
}

/// Reads one score at the place `at`: the score and the place behind it.
fn read_score(data: &[u8], at: usize) -> (r: Option<((String, u64), usize)>)
    requires
        at <= data@.len(),
    ensures
        match parse_score(data@, at as int) {
            Some((score, next)) => r is Some && r->Some_0.0.0@ == score.0 && r->Some_0.0.1
                == score.1 && r->Some_0.1 == next,
            None => r is None,
        },
{
    proof {
        reveal(parse_score);
    }
    let len: usize = data.len();
    if len - at < 4 {
        return None;
    }
    let name_len: usize = read_u32_le(data, at) as usize;
    let room: usize = len - at - 4;
    if room < 8 || room - 8 < name_len {
        return None;
    }
    let name_bytes: Vec<u8> = vstd::slice::slice_to_vec(
        vstd::slice::slice_subrange(data, at + 4, at + 4 + name_len),
    );
    let name: String = match string_from_utf8(name_bytes) {
        Some(name) => name,
        None => {
            return None;
        },
    };
    let value: u64 = read_u64_le(data, at + 4 + name_len);
    Some(((name, value), at + 4 + name_len + 8))
}

/// Reads `count` scores at the place `at`: the scores and the place behind
/// them.
fn read_scores(data: &[u8], at: usize, count: u32) -> (r: Option<(Vec<(String, u64)>, usize)>)
    requires
        at <= data@.len(),
    ensures
        match parse_scores(data@, at as int, count as nat, Seq::empty()) {
            Some((scores, end)) => r is Some && r->Some_0.0.deep_view() == scores && r->Some_0.1
                == end && end <= data@.len(),
            None => r is None,
        },
{
    let mut scores: Vec<(String, u64)> = Vec::new();
    let mut place: usize = at;
    let mut j: u32 = 0;
    assert(scores.deep_view() =~= Seq::empty());
    while j < count
        invariant
            place <= data@.len(),
            j <= count,
            parse_scores(data@, at as int, count as nat, Seq::empty()) == parse_scores(
                data@,
                place as int,
                (count - j) as nat,
                scores.deep_view(),
            ),
        decreases count - j,
    {
        let (score, next): ((String, u64), usize) = match read_score(data, place) {
            Some(found) => found,
            None => {
                return None;
            },
        };
        proof {
            lemma_parsed_score(data@, place as int);
        }
        let ghost before = scores.deep_view();
        let ghost read = (score.0@, score.1);
        scores.push(score);
        assert(scores.deep_view() =~= before.push(read));
        place = next;
        j += 1;
    }
    Some((scores, place))
}

impl UserAchievements {
    /// Writes the ledger as bytes. `None` where a list, or a name in UTF-8,
    /// is longer than four bytes can say.
    pub fn encode(&self) -> (r: Option<Vec<u8>>)
        ensures
            r is Some <==> self@.fits(),
            r matches Some(out) ==> out@ == self@.spec_encode(),
            r matches Some(out) ==> UserAchievementsView::spec_decode(out@) == Some(self@),
    {
        let claimed_len: usize = self.claimed_achievements.len();
        let scores_len: usize = self.scores.len();
        if claimed_len > u32::MAX as usize || scores_len > u32::MAX as usize {
            return None;
        }
        let mut out: Vec<u8> = Vec::new();
        push_bytes32(&mut out, &self.user);
        push_u32_le(&mut out, claimed_len as u32);
        push_ids(&mut out, &self.claimed_achievements);
        push_u32_le(&mut out, scores_len as u32);
        if !push_scores(&mut out, &self.scores) {
            return None;
        }
        proof {
            assert(out@ =~= self@.spec_encode());
            lemma_user_achievements_round_trip(self@);
        }
        Some(out)
    }

    /// Reads a ledger from bytes. `None` unless the bytes are exactly those
    /// of one ledger.
    pub fn decode(data: &[u8]) -> (r: Option<UserAchievements>)
        ensures
            match UserAchievementsView::spec_decode(data@) {
                Some(ledger) => r is Some && r->Some_0@ == ledger,
                None => r is None,
            },
            r matches Some(ledger) ==> ledger@.fits() && ledger@.spec_encode() == data@,
    {
        let len: usize = data.len();
        if len < 36 {
            return None;
        }
        let user: [u8; 32] = read_bytes32(data, 0);
        let count: u32 = read_u32_le(data, 32);
        let (claimed_achievements, at): (Vec<[u8; 32]>, usize) = match read_ids(data, 36, count) {
            Some(found) => found,
            None => {
                return None;
            },
        };
        proof {
            lemma_parsed_ids(data@, 36, count as nat, Seq::empty());
        }
        if len - at < 4 {
            return None;
        }
        let score_count: u32 = read_u32_le(data, at);
        let (scores, end): (Vec<(String, u64)>, usize) = match read_scores(
            data,
            at + 4,
            score_count,
        ) {
            Some(found) => found,
            None => {
                return None;
            },
        };
        if end != len {
            return None;
        }
        proof {
            lemma_user_achievements_bytes(data@);
        }
        Some(UserAchievements { user, claimed_achievements, scores })
    }
}

} // verus!
