//! Assistant-backend helpers: splitting long replies into chat-sized chunks
//! (preferring newline boundaries) and the per-channel conversation store
//! for multi-turn exchanges. The HTTP backend itself stays outside.

use vstd::prelude::*;
use std::collections::HashMap;
use crate::text::{chars_vec, string_from_chars};

verus! {

broadcast use vstd::std_specs::hash::group_hash_axioms;

/// The chat platform's message length limit, in characters.
pub const DISCORD_MAX_LEN: usize = 2000;

/// The last newline position strictly before `k`, or -1 if there is none.
pub open spec fn last_nl_before(s: Seq<char>, k: int) -> int
    decreases k,
{
    if k <= 0 {
        -1
    } else if 0 < k <= s.len() && s[k - 1] == '\n' {
        k - 1
    } else {
        last_nl_before(s, k - 1)
    }
}

/// Where an over-long text is cut: at the last newline within the first
/// `max` characters, or at `max` when there is no newline there.
pub open spec fn spec_split_point(s: Seq<char>, max: int) -> int {
    if last_nl_before(s, max) >= 0 {
        last_nl_before(s, max)
    } else {
        max
    }
}

proof fn lemma_last_nl(s: Seq<char>, k: int)
    ensures
        last_nl_before(s, k) == -1 || (0 <= last_nl_before(s, k) < k && last_nl_before(s, k)
            < s.len() && s[last_nl_before(s, k)] == '\n'),
    decreases k,
{
    if k > 0 {
        lemma_last_nl(s, k - 1);
    }
}

/// The chunks an over-long text is cut into: repeatedly take everything up
/// to the split point, and drop one newline at the start of the remainder.
pub open spec fn spec_chunks_loop(s: Seq<char>, max: int) -> Seq<Seq<char>>
    decreases s.len(),
    when max >= 1
    via spec_chunks_loop_decreases
{
    if s.len() == 0 {
        Seq::empty()
    } else {
        let cut = if s.len() <= max {
            s.len() as int
        } else {
            spec_split_point(s, max)
        };
        let chunk = s.subrange(0, cut);
        let rest0 = s.subrange(cut, s.len() as int);
        let rest = if rest0.len() > 0 && rest0[0] == '\n' {
            rest0.drop_first()
        } else {
            rest0
        };
        seq![chunk] + spec_chunks_loop(rest, max)
    }
}

#[via_fn]
proof fn spec_chunks_loop_decreases(s: Seq<char>, max: int) {
    if s.len() > 0 && s.len() > max {
        lemma_last_nl(s, max);
    }
}

/// The chunking of a reply: a single chunk when it fits, else the loop above.
pub open spec fn spec_chunks(s: Seq<char>, max: int) -> Seq<Seq<char>> {
    if s.len() <= max {
        seq![s]
    } else {
        spec_chunks_loop(s, max)
    }
}

fn sub_chars(v: &Vec<char>, a: usize, b: usize) -> (r: Vec<char>)
    requires
        a <= b <= v.len(),
    ensures
        r@ == v@.subrange(a as int, b as int),
{
    let mut r: Vec<char> = Vec::new();
    let mut i: usize = a;
    while i < b
        invariant
            a <= i <= b <= v.len(),
            r@ == v@.subrange(a as int, i as int),
        decreases b - i,
    {
        r.push(v[i]);
        i += 1;
        proof {
            assert(r@ =~= v@.subrange(a as int, i as int));
        }
    }
    r
}

/// Find where to cut the suffix of `v` starting at `pos`, searching the
/// first `max` characters backwards for a newline.
fn split_point_exec(v: &Vec<char>, pos: usize, max: usize) -> (r: usize)
    requires
        max >= 1,
        pos < v.len(),
        v.len() - pos > max,
    ensures
        r == spec_split_point(v@.subrange(pos as int, v@.len() as int), max as int),
        r <= max,
{
    let ghost suffix = v@.subrange(pos as int, v@.len() as int);
    let mut k: usize = max;
    while k > 0
        invariant
            k <= max,
            pos < v.len(),
            v.len() - pos > max,
            suffix == v@.subrange(pos as int, v@.len() as int),
            last_nl_before(suffix, max as int) == last_nl_before(suffix, k as int),
        decreases k,
    {
        if v[pos + k - 1] == '\n' {
            return k - 1;
        }
        k -= 1;
    }
    max
}

/// Split a reply into chunks of at most `max` characters, cutting at the
/// last newline inside the window where one exists; a newline swallowed by
/// a cut starts no chunk.
pub fn chunk_message(text: &str, max: usize) -> (r: Vec<String>)
    requires
        max >= 1,
    ensures
        r@.map_values(|c: String| c@) == spec_chunks(text@, max as int),
{
    let v = chars_vec(text);
    if v.len() <= max {
        let mut r: Vec<String> = Vec::new();
        r.push(text.to_owned());
        proof {
            assert(r@.map_values(|c: String| c@) =~= spec_chunks(text@, max as int));
        }
        return r;
    }
    let mut chunks: Vec<String> = Vec::new();
    let mut pos: usize = 0;
    proof {
        assert(v@.subrange(0, v@.len() as int) =~= text@);
        assert(chunks@.map_values(|c: String| c@) + spec_chunks_loop(text@, max as int)
            =~= spec_chunks_loop(text@, max as int));
    }
    while pos < v.len()
        invariant
            max >= 1,
            v@ == text@,
            pos <= v.len(),
            chunks@.map_values(|c: String| c@) + spec_chunks_loop(
                v@.subrange(pos as int, v@.len() as int),
                max as int,
            ) == spec_chunks_loop(text@, max as int),
        decreases v.len() - pos,
    {
        let ghost suffix = v@.subrange(pos as int, v@.len() as int);
        let remaining: usize = v.len() - pos;
        let cut: usize = if remaining <= max {
            remaining
        } else {
            split_point_exec(&v, pos, max)
        };
        let chunk_v = sub_chars(&v, pos, pos + cut);
        let chunk = string_from_chars(&chunk_v);
        chunks.push(chunk);
        let old_pos: usize = pos;
        let ghost old_chunks_views = chunks@.map_values(|c: String| c@);
        pos += cut;
        if pos < v.len() && v[pos] == '\n' {
            pos += 1;
        }
        proof {
            let cut_i = cut as int;
            let chunk_s = suffix.subrange(0, cut_i);
            let rest0 = suffix.subrange(cut_i, suffix.len() as int);
            let rest = if rest0.len() > 0 && rest0[0] == '\n' {
                rest0.drop_first()
            } else {
                rest0
            };
            assert(chunk_v@ =~= chunk_s);
            assert(rest0 =~= v@.subrange(old_pos + cut_i, v@.len() as int));
            if rest0.len() > 0 && rest0[0] == '\n' {
                assert(rest =~= v@.subrange(pos as int, v@.len() as int));
            } else {
                assert(rest =~= v@.subrange(pos as int, v@.len() as int));
            }
            assert(spec_chunks_loop(suffix, max as int) == seq![chunk_s] + spec_chunks_loop(
                rest,
                max as int,
            ));
            assert(chunks@.map_values(|c: String| c@) =~= old_chunks_views.drop_last().push(
                chunk_s,
            ));
            assert(chunks@.map_values(|c: String| c@) + spec_chunks_loop(
                v@.subrange(pos as int, v@.len() as int),
                max as int,
            ) =~= spec_chunks_loop(text@, max as int));
        }
    }
    proof {
        assert(v@.subrange(v@.len() as int, v@.len() as int) =~= Seq::<char>::empty());
        assert(spec_chunks_loop(Seq::<char>::empty(), max as int) =~= Seq::<Seq<char>>::empty());
        assert(chunks@.map_values(|c: String| c@) =~= spec_chunks(text@, max as int));
    }
    chunks
}

/// Pick the first of the candidate reply texts a backend's response may
/// carry, in order of preference.
pub fn first_some(a: Option<String>, b: Option<String>, c: Option<String>) -> (r: Option<String>)
    ensures
        a matches Some(v) ==> (r matches Some(w) && w@ == v@),
        a is None ==> (b matches Some(v) ==> (r matches Some(w) && w@ == v@)),
        a is None && b is None ==> (c matches Some(v) ==> (r matches Some(w) && w@ == v@)),
        a is None && b is None && c is None ==> r is None,
{
    match a {
        Some(v) => Some(v),
        None => match b {
            Some(v) => Some(v),
            None => c,
        },
    }
}

/// One turn of a conversation.
pub struct Message {
    pub role: String,
    pub content: String,
}

/// The ghost shape of one turn: its role and content.
pub open spec fn msg_view(m: Message) -> (Seq<char>, Seq<char>) {
    (m.role@, m.content@)
}

/// The ghost shape of a transcript.
pub open spec fn msgs_view(s: Seq<Message>) -> Seq<(Seq<char>, Seq<char>)> {
    s.map_values(|m: Message| msg_view(m))
}

fn clone_messages(v: &Vec<Message>) -> (r: Vec<Message>)
    ensures
        r@ == v@,
{
    let mut r: Vec<Message> = Vec::new();
    let mut i: usize = 0;
    while i < v.len()
        invariant
            i <= v.len(),
            r@ == v@.subrange(0, i as int),
        decreases v.len() - i,
    {
        let m = Message { role: v[i].role.clone(), content: v[i].content.clone() };
        proof {
            assert(m == v@[i as int]);
        }
        r.push(m);
        i += 1;
        proof {
            assert(r@ =~= v@.subrange(0, i as int));
        }
    }
    proof {
        assert(r@ =~= v@);
    }
    r
}

/// Per-channel conversation transcripts, keyed by channel id.
pub struct ConversationStore {
    conversations: HashMap<u64, Vec<Message>>,
}

impl ConversationStore {
    /// The transcripts, as ghost data: channel id to sequence of turns.
    pub closed spec fn transcripts(&self) -> Map<u64, Seq<(Seq<char>, Seq<char>)>> {
        Map::new(
            |k: u64| self.conversations@.contains_key(k),
            |k: u64| msgs_view(self.conversations@[k]@),
        )
    }

    /// An empty store.
    pub fn new() -> (r: ConversationStore)
        ensures
            r.transcripts() == Map::<u64, Seq<(Seq<char>, Seq<char>)>>::empty(),
    {
        let r = ConversationStore { conversations: HashMap::new() };
        proof {
            assert(r.transcripts() =~~= Map::<u64, Seq<(Seq<char>, Seq<char>)>>::empty());
        }
        r
    }

    /// Start (or restart) a conversation in a channel with an empty
    /// transcript.
    pub fn start(&mut self, channel: u64)
        ensures
            final(self).transcripts() == old(self).transcripts().insert(
                channel,
                Seq::<(Seq<char>, Seq<char>)>::empty(),
            ),
    {
        self.conversations.insert(channel, Vec::new());
        proof {
            assert(self.transcripts() =~~= old(self).transcripts().insert(
                channel,
                Seq::<(Seq<char>, Seq<char>)>::empty(),
            ));
        }
    }

    /// End a conversation; reports whether one was active.
    pub fn end(&mut self, channel: u64) -> (r: bool)
        ensures
            r == old(self).transcripts().contains_key(channel),
            final(self).transcripts() == old(self).transcripts().remove(channel),
    {
        let removed = self.conversations.remove(&channel);
        proof {
            assert(self.transcripts() =~~= old(self).transcripts().remove(channel));
        }
        match removed {
            Some(_) => true,
            None => false,
        }
    }

    /// Append the user's prompt to the channel's transcript if a
    /// conversation is active, and return the messages to send to the
    /// backend: the transcript so far, or the prompt alone when no
    /// conversation is active (in which case nothing is stored).
    pub fn prepare_ask(&mut self, channel: u64, prompt: &str) -> (r: Vec<Message>)
        ensures
            old(self).transcripts().contains_key(channel) ==> {
                &&& final(self).transcripts() == old(self).transcripts().insert(
                    channel,
                    old(self).transcripts()[channel].push(("user"@, prompt@)),
                )
                &&& msgs_view(r@) == final(self).transcripts()[channel]
            },
            !old(self).transcripts().contains_key(channel) ==> {
                &&& final(self).transcripts() == old(self).transcripts()
                &&& msgs_view(r@) == seq![("user"@, prompt@)]
            },
    {
        let user_msg = Message { role: "user".to_owned(), content: prompt.to_owned() };
        match self.conversations.get(&channel) {
            Some(h) => {
                let mut new_h = clone_messages(h);
                new_h.push(user_msg);
                let ret = clone_messages(&new_h);
                proof {
                    assert(msgs_view(new_h@) =~~= msgs_view(
                        old(self).conversations@[channel]@,
                    ).push(("user"@, prompt@)));
                }
                self.conversations.insert(channel, new_h);
                proof {
                    assert(self.transcripts() =~~= old(self).transcripts().insert(
                        channel,
                        old(self).transcripts()[channel].push(("user"@, prompt@)),
                    ));
                }
                ret
            },
            None => {
                let mut ret: Vec<Message> = Vec::new();
                ret.push(user_msg);
                proof {
                    assert(msgs_view(ret@) =~~= seq![("user"@, prompt@)]);
                }
                ret
            },
        }
    }

    /// Append the assistant's response to the channel's transcript if a
    /// conversation is active; otherwise change nothing.
    pub fn record_response(&mut self, channel: u64, response: &str)
        ensures
            old(self).transcripts().contains_key(channel) ==> final(self).transcripts() == old(
                self,
            ).transcripts().insert(
                channel,
                old(self).transcripts()[channel].push(("assistant"@, response@)),
            ),
            !old(self).transcripts().contains_key(channel) ==> final(self).transcripts() == old(
                self,
            ).transcripts(),
    {
        let assistant_msg = Message { role: "assistant".to_owned(), content: response.to_owned() };
        match self.conversations.get(&channel) {
            Some(h) => {
                let mut new_h = clone_messages(h);
                new_h.push(assistant_msg);
                proof {
                    assert(msgs_view(new_h@) =~~= msgs_view(
                        old(self).conversations@[channel]@,
                    ).push(("assistant"@, response@)));
                }
                self.conversations.insert(channel, new_h);
                proof {
                    assert(self.transcripts() =~~= old(self).transcripts().insert(
                        channel,
                        old(self).transcripts()[channel].push(("assistant"@, response@)),
                    ));
                }
            },
            None => {},
        }
    }
}

} // verus!
