//! Topic paths: the names that messages are published to, and the filters
//! that subscriptions are made with.

use vstd::prelude::*;
use vstd::utf8::encode_utf8;
use crate::mq_error::MQError;

verus! {

/// `+`, which stands for any one level of a topic.
pub const SINGLE_LEVEL: u8 = 0x2B;

/// `#`, which stands for all the levels that follow.
pub const MULTI_LEVEL: u8 = 0x23;

/// `/`, which parts the levels of a topic.
pub const SEPARATOR: u8 = 0x2F;

/// Whether a level of the path starts at index `i`.
pub open spec fn level_starts(path: Seq<u8>, i: int) -> bool {
    i == 0 || path[i - 1] == SEPARATOR
}

/// Whether a level of the path ends with the byte at index `i`.
pub open spec fn level_ends(path: Seq<u8>, i: int) -> bool {
    i + 1 == path.len() || path[i + 1] == SEPARATOR
}

/// Whether the byte at index `i` may stand where it does: a `+` must be a
/// whole level, and a `#` must be the whole last level.
pub open spec fn well_placed(path: Seq<u8>, i: int) -> bool {
    &&& path[i] == SINGLE_LEVEL ==> level_starts(path, i) && level_ends(path, i)
    &&& path[i] == MULTI_LEVEL ==> level_starts(path, i) && i + 1 == path.len()
}

/// Whether the bytes are a topic path.
pub open spec fn valid_path(path: Seq<u8>) -> bool {
    forall|i: int| 0 <= i < path.len() ==> #[trigger] well_placed(path, i)
}

/// Whether the byte at index `i` is a wildcard.
pub open spec fn wildcard_at(path: Seq<u8>, i: int) -> bool {
    path[i] == SINGLE_LEVEL || path[i] == MULTI_LEVEL
}

/// Whether the path holds a wildcard.
pub open spec fn has_wildcards(path: Seq<u8>) -> bool {
    exists|i: int| 0 <= i < path.len() && #[trigger] wildcard_at(path, i)
}

/// A topic path, with the note whether it holds a wildcard.
#[derive(Debug, Clone, PartialEq, Eq)]
pub struct TopicPath {
    pub path: String,
    pub wildcards: bool,
}

/// What a [`TopicPath`] holds.
pub struct TopicPathView {
    pub path: Seq<char>,
    pub wildcards: bool,
}

impl View for TopicPath {
    type V = TopicPathView;

    open spec fn view(&self) -> TopicPathView {
        TopicPathView { path: self.path@, wildcards: self.wildcards }
    }
}

/// The topic path that a string is, if it is one: a filter for a
/// subscription, wildcards or none.
pub open spec fn topic_path_of(text: Seq<char>) -> Result<TopicPathView, MQError> {
    if valid_path(encode_utf8(text)) {
        Ok(TopicPathView { path: text, wildcards: has_wildcards(encode_utf8(text)) })
    } else {
        Err(MQError::InvalidTopicPath)
    }
}

/// The topic name that a string is, if it is one: a topic path without a
/// wildcard, which a message can be published to.
pub open spec fn topic_name_of(text: Seq<char>) -> Result<TopicPathView, MQError> {
    match topic_path_of(text) {
        Err(e) => Err(e),
        Ok(topic) => if topic.wildcards {
            Err(MQError::TopicNameMustNotContainWildcard)
        } else {
            Ok(topic)
        },
    }
}

impl TopicPath {
    /// Reads a topic path.
    pub fn from_str(path: &str) -> (r: Result<TopicPath, MQError>)
        ensures
            match topic_path_of(path@) {
                Ok(topic) => r matches Ok(t) && t@ == topic,
                Err(e) => r == Err::<TopicPath, MQError>(e),
            },
    {
        let bytes = path.as_bytes();
        let n = bytes.len();
        let mut wildcards = false;
        let mut i: usize = 0;
        while i < n
            invariant
                i <= n,
                n == bytes@.len(),
                bytes@ == encode_utf8(path@),
                forall|j: int| 0 <= j < i ==> #[trigger] well_placed(bytes@, j),
                wildcards == (exists|j: int| 0 <= j < i && #[trigger] wildcard_at(bytes@, j)),
            decreases n - i,
        {
            let byte = bytes[i];
            if byte == SINGLE_LEVEL || byte == MULTI_LEVEL {
                let starts = i == 0 || bytes[i - 1] == SEPARATOR;
                let ends = if byte == SINGLE_LEVEL {
                    i + 1 == n || bytes[i + 1] == SEPARATOR
                } else {
                    i + 1 == n
                };
                if !(starts && ends) {
                    assert(!well_placed(bytes@, i as int));
                    return Err(MQError::InvalidTopicPath);
                }
                assert(wildcard_at(bytes@, i as int));
                wildcards = true;
            }
            i += 1;
        }
        Ok(TopicPath { path: path.to_owned(), wildcards })
    }

    /// The path as text.
    pub fn path(&self) -> (r: String)
        ensures
            r@ == self.path@,
    {
        self.path.clone()
    }

    /// A copy with the same contents.
    pub fn duplicate(&self) -> (r: TopicPath)
        ensures
            r@ == self@,
    {
        TopicPath { path: self.path.clone(), wildcards: self.wildcards }
    }
}

/// Reads a topic filter, which may hold wildcards.
pub fn to_topic_path(path: &str) -> (r: Result<TopicPath, MQError>)
    ensures
        match topic_path_of(path@) {
            Ok(topic) => r matches Ok(t) && t@ == topic,
            Err(e) => r == Err::<TopicPath, MQError>(e),
        },
{
    TopicPath::from_str(path)
}

/// Reads a topic name, which must not hold a wildcard.
pub fn to_topic_name(path: &str) -> (r: Result<TopicPath, MQError>)
    ensures
        match topic_name_of(path@) {
            Ok(topic) => r matches Ok(t) && t@ == topic,
            Err(e) => r == Err::<TopicPath, MQError>(e),
        },
{
    let topic = TopicPath::from_str(path)?;
    if topic.wildcards {
        Err(MQError::TopicNameMustNotContainWildcard)
    } else {
        Ok(topic)
    }
}

} // verus!
