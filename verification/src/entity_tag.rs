//! Entity tags and the request headers that hold them.

use vstd::prelude::*;

verus! {

/// A request header as it arrived: missing, present but unreadable, or read.
#[derive(Debug)]
pub enum Header<T> {
    Absent,
    Invalid,
    Value(T),
}

/// An entity tag: an opaque text, weak or strong.
#[derive(Debug)]
pub struct EntityTag {
    pub weak: bool,
    pub tag: String,
}

/// The mathematical value of an entity tag.
pub struct EntityTagView {
    pub weak: bool,
    pub tag: Seq<char>,
}

impl View for EntityTag {
    type V = EntityTagView;

    open spec fn view(&self) -> EntityTagView {
        EntityTagView { weak: self.weak, tag: self.tag@ }
    }
}

/// Two tags are strongly equal: neither is weak and their texts are equal.
pub open spec fn strong_eq(a: EntityTagView, b: EntityTagView) -> bool {
    !a.weak && !b.weak && a.tag == b.tag
}

/// Two tags are weakly equal: their texts are equal.
pub open spec fn weak_eq(a: EntityTagView, b: EntityTagView) -> bool {
    a.tag == b.tag
}

/// The value of an optional tag.
pub open spec fn tag_view(tag: Option<EntityTag>) -> Option<EntityTagView> {
    match tag {
        Some(t) => Some(t@),
        None => None,
    }
}

impl EntityTag {
    /// A strong tag with the text `tag`.
    pub fn strong(tag: String) -> (made: EntityTag)
        ensures
            made@ == (EntityTagView { weak: false, tag: tag@ }),
    {
        EntityTag { weak: false, tag }
    }

    /// A weak tag with the text `tag`.
    pub fn weak(tag: String) -> (made: EntityTag)
        ensures
            made@ == (EntityTagView { weak: true, tag: tag@ }),
    {
        EntityTag { weak: true, tag }
    }

    /// Strong comparison.
    pub fn strong_eq(&self, other: &EntityTag) -> (same: bool)
        ensures
            same == strong_eq(self@, other@),
    {
        !self.weak && !other.weak && self.tag == other.tag
    }

    /// Weak comparison.
    pub fn weak_eq(&self, other: &EntityTag) -> (same: bool)
        ensures
            same == weak_eq(self@, other@),
    {
        self.tag == other.tag
    }
}

impl Clone for EntityTag {
    fn clone(&self) -> (copy: Self)
        ensures
            copy@ == self@,
    {
        EntityTag { weak: self.weak, tag: self.tag.clone() }
    }
}

/// What an `If-Match` or `If-None-Match` header holds: any tag, or a list.
#[derive(Debug)]
pub enum TagCondition {
    Any,
    Items(Vec<EntityTag>),
}

/// Blank that may stand around the items of a list: space or tab.
pub open spec fn is_blank(c: char) -> bool {
    c == ' ' || c == '\t'
}

/// A character that may stand inside the quotes of a tag: any visible
/// character but the quote, and any beyond ASCII.
pub open spec fn is_tag_char(c: char) -> bool {
    c == '!' || ('#' <= c && c <= '~') || c as int >= 0x80
}

/// The first place at or behind `i` where no blank stands.
pub open spec fn after_blank(s: Seq<char>, i: int) -> int
    decreases s.len() - i,
{
    if 0 <= i < s.len() && is_blank(s[i]) {
        after_blank(s, i + 1)
    } else {
        i
    }
}

/// The place of the quote that closes a tag whose text begins at `i`.
pub open spec fn closing_quote(s: Seq<char>, i: int) -> Option<int>
    decreases s.len() - i,
{
    if 0 <= i < s.len() {
        if s[i] == '"' {
            Some(i)
        } else if is_tag_char(s[i]) {
            closing_quote(s, i + 1)
        } else {
            None
        }
    } else {
        None
    }
}

/// A weak tag begins at `i`: the two characters `W/` stand there.
pub open spec fn weak_at(s: Seq<char>, i: int) -> bool {
    0 <= i && i + 1 < s.len() && s[i] == 'W' && s[i + 1] == '/'
}

/// The tag that is written at `i`, and the place behind it: an optional
/// `W/`, a quote, the tag's text, a quote.
pub open spec fn tag_at(s: Seq<char>, i: int) -> Option<(EntityTagView, int)> {
    let open = if weak_at(s, i) {
        i + 2
    } else {
        i
    };
    if 0 <= open < s.len() && s[open] == '"' {
        match closing_quote(s, open + 1) {
            Some(close) => Some(
                (EntityTagView { weak: weak_at(s, i), tag: s.subrange(open + 1, close) }, close + 1),
            ),
            None => None,
        }
    } else {
        None
    }
}

/// The tags that are written from `i` on: one or more, with commas between
/// and blanks around them, up to the end of `s`.
pub open spec fn tags_from(s: Seq<char>, i: int) -> Option<Seq<EntityTagView>>
    decreases s.len() - i,
{
    match tag_at(s, after_blank(s, i)) {
        Some((tag, behind)) => {
            let next = after_blank(s, behind);
            if next == s.len() {
                Some(seq![tag])
            } else if i <= next < s.len() && s[next] == ',' {
                match tags_from(s, next + 1) {
                    Some(more) => Some(seq![tag] + more),
                    None => None,
                }
            } else {
                None
            }
        },
        None => None,
    }
}

/// `s` is a star with blanks around it.
pub open spec fn is_star(s: Seq<char>) -> bool {
    let at = after_blank(s, 0);
    0 <= at < s.len() && s[at] == '*' && after_blank(s, at + 1) == s.len()
}

/// The value of a list of tags.
pub open spec fn tags_view(items: Seq<EntityTag>) -> Seq<EntityTagView> {
    Seq::new(items.len(), |i: int| items[i]@)
}

/// What an `If-Match` or `If-None-Match` header says, if it is well formed.
pub open spec fn condition_of(s: Seq<char>) -> Option<Option<Seq<EntityTagView>>> {
    if is_star(s) {
        Some(None)
    } else {
        match tags_from(s, 0) {
            Some(tags) => Some(Some(tags)),
            None => None,
        }
    }
}

/// The value of a header that holds tags: none for any tag, else the list.
pub open spec fn condition_view(field: Header<TagCondition>) -> Option<Option<Seq<EntityTagView>>> {
    match field {
        Header::Value(TagCondition::Any) => Some(None),
        Header::Value(TagCondition::Items(items)) => Some(Some(tags_view(items@))),
        _ => None,
    }
}

/// Every character of `text` may stand inside the quotes of a tag.
pub open spec fn is_tag_text(text: Seq<char>) -> bool {
    forall|i: int| 0 <= i < text.len() ==> is_tag_char(#[trigger] text[i])
}

/// A tag as a header writes it: `W/` before a weak one, and the text in
/// quotes.
pub open spec fn tag_text(tag: EntityTagView) -> Seq<char> {
    if tag.weak {
        seq!['W', '/', '"'] + tag.tag + seq!['"']
    } else {
        seq!['"'] + tag.tag + seq!['"']
    }
}

proof fn lemma_closing_quote(s: Seq<char>, from: int, close: int)
    requires
        0 <= from <= close < s.len(),
        s[close] == '"',
        forall|i: int| from <= i < close ==> is_tag_char(#[trigger] s[i]),
    ensures
        closing_quote(s, from) == Some(close),
    decreases close - from,
{
    if from < close {
        assert(is_tag_char(s[from]));
        lemma_closing_quote(s, from + 1, close);
    }
}

/// A tag that was written is read back as it was.
pub proof fn lemma_tag_round_trip(tag: EntityTagView)
    requires
        is_tag_text(tag.tag),
    ensures
        tag_at(tag_text(tag), 0) == Some((tag, tag_text(tag).len() as int)),
        tags_from(tag_text(tag), 0) == Some(seq![tag]),
        !is_star(tag_text(tag)),
{
    let s = tag_text(tag);
    let open: int = if tag.weak {
        2
    } else {
        0
    };
    let close = open + 1 + tag.tag.len();
    assert(s[open] == '"');
    assert(s[close] == '"');
    assert forall|i: int| open + 1 <= i < close implies is_tag_char(#[trigger] s[i]) by {
        assert(s[i] == tag.tag[i - open - 1]);
    }
    lemma_closing_quote(s, open + 1, close);
    assert(s.subrange(open + 1, close) =~= tag.tag);
    assert(weak_at(s, 0) == tag.weak);
    assert(after_blank(s, 0) == 0);
    assert(after_blank(s, s.len() as int) == s.len());
}

impl EntityTag {
    /// The tag as a header writes it.
    pub fn header_value(&self) -> (text: String)
        ensures
            text@ == tag_text(self@),
    {
        proof {
            reveal_strlit("W/\"");
            reveal_strlit("\"");
        }
        let mut text = if self.weak {
            "W/\"".to_owned()
        } else {
            "\"".to_owned()
        };
        text.append(self.tag.as_str());
        text.append("\"");
        assert(text@ =~= tag_text(self@));
        text
    }
}

fn skip_blank(s: &str, n: usize, from: usize) -> (at: usize)
    requires
        n == s@.len(),
        from <= n,
    ensures
        at == after_blank(s@, from as int),
        from <= at <= n,
{
    let mut i: usize = from;
    while i < n
        invariant
            n == s@.len(),
            from <= i <= n,
            after_blank(s@, from as int) == after_blank(s@, i as int),
        decreases n - i,
    {
        let c: char = s.get_char(i);
        if c == ' ' || c == '\t' {
            i = i + 1;
        } else {
            return i;
        }
    }
    i
}

fn find_closing_quote(s: &str, n: usize, from: usize) -> (at: Option<usize>)
    requires
        n == s@.len(),
        from <= n,
    ensures
        match at {
            Some(i) => closing_quote(s@, from as int) == Some(i as int) && from <= i < n,
            None => closing_quote(s@, from as int) is None,
        },
{
    let mut i: usize = from;
    while i < n
        invariant
            n == s@.len(),
            from <= i <= n,
            closing_quote(s@, from as int) == closing_quote(s@, i as int),
        decreases n - i,
    {
        let c: char = s.get_char(i);
        if c == '"' {
            return Some(i);
        } else if c == '!' || (c >= '#' && c <= '~') || c as u32 >= 0x80 {
            i = i + 1;
        } else {
            return None;
        }
    }
    None
}

fn read_tag(s: &str, n: usize, from: usize) -> (read: Option<(EntityTag, usize)>)
    requires
        n == s@.len(),
        from <= n,
    ensures
        match read {
            Some((tag, behind)) => tag_at(s@, from as int) == Some((tag@, behind as int)) && from
                < behind <= n,
            None => tag_at(s@, from as int) is None,
        },
{
    let weak = n >= 2 && from < n - 1 && s.get_char(from) == 'W' && s.get_char(from + 1) == '/';
    let open: usize = if weak {
        from + 2
    } else {
        from
    };
    if open >= n || s.get_char(open) != '"' {
        return None;
    }
    match find_closing_quote(s, n, open + 1) {
        None => None,
        Some(close) => {
            let text = s.substring_char(open + 1, close).to_owned();
            Some((EntityTag { weak, tag: text }, close + 1))
        },
    }
}

impl TagCondition {
    /// Reads the value of an `If-Match` or `If-None-Match` header: a star, or
    /// a list of tags with commas between. A header in another form is
    /// invalid.
    pub fn parse(header: &str) -> (field: Header<TagCondition>)
        ensures
            field !is Absent,
            condition_view(field) == condition_of(header@),
    {
        let n: usize = header.unicode_len();
        let first: usize = skip_blank(header, n, 0);
        if first < n && header.get_char(first) == '*' && skip_blank(header, n, first + 1) == n {
            return Header::Value(TagCondition::Any);
        }
        let mut items: Vec<EntityTag> = Vec::new();
        let mut i: usize = 0;
        loop
            invariant
                n == header@.len(),
                i <= n,
                !is_star(header@),
                tags_from(header@, 0) == match tags_from(header@, i as int) {
                    Some(more) => Some(tags_view(items@) + more),
                    None => None,
                },
            decreases n - i,
        {
            let start: usize = skip_blank(header, n, i);
            match read_tag(header, n, start) {
                None => {
                    return Header::Invalid;
                },
                Some((tag, behind)) => {
                    let next: usize = skip_blank(header, n, behind);
                    let ghost before = tags_view(items@);
                    let ghost one = tag@;
                    items.push(tag);
                    assert(tags_view(items@) =~= before + seq![one]);
                    if next == n {
                        assert(before + seq![one] =~= tags_view(items@));
                        return Header::Value(TagCondition::Items(items));
                    } else if header.get_char(next) == ',' {
                        proof {
                            match tags_from(header@, next as int + 1) {
                                Some(more) => {
                                    assert(before + (seq![one] + more) =~= tags_view(items@)
                                        + more);
                                },
                                None => {},
                            }
                        }
                        i = next + 1;
                    } else {
                        return Header::Invalid;
                    }
                },
            }
        }
    }
}

/// Some tag of `items` is strongly equal to `tag`.
pub open spec fn some_strong(items: Seq<EntityTag>, tag: EntityTagView) -> bool {
    exists|i: int| 0 <= i < items.len() && strong_eq((#[trigger] items[i])@, tag)
}

/// Some tag of `items` is weakly equal to `tag`.
pub open spec fn some_weak(items: Seq<EntityTag>, tag: EntityTagView) -> bool {
    exists|i: int| 0 <= i < items.len() && weak_eq((#[trigger] items[i])@, tag)
}

/// An `If-Match` header lets the request through: it is missing or
/// unreadable, names any tag, or lists one strongly equal to the file's.
pub open spec fn matches_any(etag: Option<EntityTagView>, field: Header<TagCondition>) -> bool {
    match field {
        Header::Value(TagCondition::Items(items)) => etag is Some && some_strong(items@, etag->0),
        _ => true,
    }
}

/// An `If-None-Match` header lets the request through: it is missing or
/// unreadable, or lists no tag weakly equal to the file's.
pub open spec fn matches_none(etag: Option<EntityTagView>, field: Header<TagCondition>) -> bool {
    match field {
        Header::Value(TagCondition::Any) => false,
        Header::Value(TagCondition::Items(items)) => !(etag is Some && some_weak(
            items@,
            etag->0,
        )),
        _ => true,
    }
}

/// Whether an `If-Match` header lets the request through.
#[verifier::loop_isolation(false)]
pub fn any_match(etag: &Option<EntityTag>, field: &Header<TagCondition>) -> (pass: bool)
    ensures
        pass == matches_any(tag_view(*etag), *field),
{
    match field {
        Header::Value(TagCondition::Items(items)) => {
            match etag {
                Some(some_etag) => {
                    let mut i: usize = 0;
                    while i < items.len()
                        invariant
                            i <= items@.len(),
                            forall|j: int| 0 <= j < i ==> !strong_eq((#[trigger] items@[j])@, some_etag@),
                        decreases items@.len() - i,
                    {
                        if items[i].strong_eq(some_etag) {
                            return true;
                        }
                        i = i + 1;
                    }
                    false
                },
                None => false,
            }
        },
        _ => true,
    }
}

/// Whether an `If-None-Match` header lets the request through.
#[verifier::loop_isolation(false)]
pub fn none_match(etag: &Option<EntityTag>, field: &Header<TagCondition>) -> (pass: bool)
    ensures
        pass == matches_none(tag_view(*etag), *field),
{
    match field {
        Header::Value(TagCondition::Any) => false,
        Header::Value(TagCondition::Items(items)) => {
            match etag {
                Some(some_etag) => {
                    let mut i: usize = 0;
                    while i < items.len()
                        invariant
                            i <= items@.len(),
                            forall|j: int| 0 <= j < i ==> !weak_eq((#[trigger] items@[j])@, some_etag@),
                        decreases items@.len() - i,
                    {
                        if items[i].weak_eq(some_etag) {
                            return false;
                        }
                        i = i + 1;
                    }
                    true
                },
                None => true,
            }
        },
        _ => true,
    }
}

} // verus!
