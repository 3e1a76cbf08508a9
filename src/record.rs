use vstd::prelude::*;

verus! {

/// The credential record as plain sequences: base URL, user id and password.
pub struct Credentials {
    pub api: Seq<char>,
    pub user_id: Seq<char>,
    pub password: Seq<char>,
}

/// The persisted credential record.
pub struct Data {
    pub wpengine_api: String,
    pub wpengine_user_id: String,
    pub wpengine_password: String,
}

impl View for Data {
    type V = Credentials;

    open spec fn view(&self) -> Credentials {
        Credentials {
            api: self.wpengine_api@,
            user_id: self.wpengine_user_id@,
            password: self.wpengine_password@,
        }
    }
}

pub open spec fn api_key() -> Seq<char> {
    seq!['a', 'p', 'i', '=']
}

pub open spec fn user_key() -> Seq<char> {
    seq!['u', 's', 'e', 'r', '=']
}

pub open spec fn password_key() -> Seq<char> {
    seq!['p', 'a', 's', 's', 'w', 'o', 'r', 'd', '=']
}

pub open spec fn newline() -> Seq<char> {
    seq!['\n']
}

/// A value holds no line break.
pub open spec fn one_line(s: Seq<char>) -> bool {
    forall|i: int| 0 <= i < s.len() ==> s[i] != '\n'
}

/// Each field fits on one line of the stored text.
pub open spec fn storable(c: Credentials) -> bool {
    one_line(c.api) && one_line(c.user_id) && one_line(c.password)
}

/// The line text of a record: one `key=value` line per field, in a fixed order.
pub open spec fn record_text(c: Credentials) -> Seq<char> {
    api_key() + c.api + newline() + user_key() + c.user_id + newline() + password_key()
        + c.password + newline()
}

/// The fields that a line text holds, if it holds a record.
pub open spec fn decoded(s: Seq<char>) -> Option<Credentials> {
    if exists|c: Credentials| storable(c) && record_text(c) == s {
        Some(choose|c: Credentials| storable(c) && record_text(c) == s)
    } else {
        None
    }
}

/// The position of the first line break at or after `from`, in a text that has one there.
pub open spec fn breaks_at(s: Seq<char>, from: int, k: int) -> bool {
    &&& from <= k < s.len()
    &&& s[k] == '\n'
    &&& forall|j: int| from <= j < k ==> s[j] != '\n'
}

proof fn lemma_field_end(s: Seq<char>, pre: Seq<char>, v: Seq<char>, rest: Seq<char>)
    requires
        s == pre + v + newline() + rest,
        one_line(v),
    ensures
        breaks_at(s, pre.len() as int, pre.len() + v.len() as int),
        s.subrange(pre.len() as int, pre.len() + v.len() as int) == v,
        s.subrange(pre.len() + v.len() as int + 1, s.len() as int) == rest,
{
    let a = pre.len() as int;
    assert forall|j: int| a <= j < a + v.len() implies s[j] != '\n' by {
        assert(s[j] == v[j - a]);
    }
    assert(s[a + v.len()] == '\n');
    assert(s.subrange(a, a + v.len()) =~= v);
    assert(s.subrange(a + v.len() + 1, s.len() as int) =~= rest);
}

proof fn lemma_break_unique(s: Seq<char>, from: int, k1: int, k2: int)
    requires
        breaks_at(s, from, k1),
        breaks_at(s, from, k2),
    ensures
        k1 == k2,
{
    if k1 < k2 {
        assert(s[k1] != '\n');
    } else if k2 < k1 {
        assert(s[k2] != '\n');
    }
}

/// The three fields of a storable record sit at fixed places around its line breaks.
#[verifier::rlimit(50)]
proof fn lemma_layout(c: Credentials)
    requires
        storable(c),
    ensures
        ({
            let s = record_text(c);
            let k1: int = 4 + c.api.len() as int;
            let k2: int = k1 + 6 + c.user_id.len() as int;
            let k3: int = k2 + 10 + c.password.len() as int;
            &&& s.subrange(0, 4) == api_key()
            &&& breaks_at(s, 4, k1)
            &&& s.subrange(4, k1) == c.api
            &&& s.subrange(k1 + 1, k1 + 6) == user_key()
            &&& breaks_at(s, k1 + 6, k2)
            &&& s.subrange(k1 + 6, k2) == c.user_id
            &&& s.subrange(k2 + 1, k2 + 10) == password_key()
            &&& breaks_at(s, k2 + 10, k3)
            &&& s.subrange(k2 + 10, k3) == c.password
            &&& s.len() == k3 + 1
        }),
{
    let s = record_text(c);
    let k1: int = 4 + c.api.len() as int;
    let k2: int = k1 + 6 + c.user_id.len() as int;
    let r1 = user_key() + c.user_id + newline() + password_key() + c.password + newline();
    assert(s =~= api_key() + c.api + newline() + r1);
    lemma_field_end(s, api_key(), c.api, r1);
    let head_user = api_key() + c.api + newline() + user_key();
    let r2 = password_key() + c.password + newline();
    assert(s =~= head_user + c.user_id + newline() + r2);
    lemma_field_end(s, head_user, c.user_id, r2);
    let head_password = head_user + c.user_id + newline() + password_key();
    assert(s =~= head_password + c.password + newline() + Seq::<char>::empty());
    lemma_field_end(s, head_password, c.password, Seq::<char>::empty());
    assert(s.subrange(0, 4) =~= api_key()) by {
        assert(s =~= api_key() + (c.api + newline() + r1));
    }
    assert(s.subrange(k1 + 1, k1 + 6) =~= user_key()) by {
        assert(s.subrange(k1 + 1, s.len() as int) == r1);
        assert(r1 =~= user_key() + (c.user_id + newline() + r2));
    }
    assert(s.subrange(k2 + 1, k2 + 10) =~= password_key()) by {
        assert(s.subrange(k2 + 1, s.len() as int) == r2);
        assert(r2 =~= password_key() + (c.password + newline()));
    }
}

/// Two storable records with the same stored text are the same record.
pub proof fn lemma_record_text_injective(c: Credentials, d: Credentials)
    requires
        storable(c),
        storable(d),
        record_text(c) == record_text(d),
    ensures
        c == d,
{
    lemma_layout(c);
    lemma_layout(d);
    let s = record_text(c);
    lemma_break_unique(s, 4, 4 + c.api.len() as int, 4 + d.api.len() as int);
    let k1: int = 4 + c.api.len() as int;
    lemma_break_unique(s, k1 + 6, k1 + 6 + c.user_id.len() as int, k1 + 6 + d.user_id.len() as int);
    let k2: int = k1 + 6 + c.user_id.len() as int;
    lemma_break_unique(s, k2 + 10, k2 + 10 + c.password.len() as int, k2 + 10 + d.password.len() as int);
}

/// Reading back the line text of a record whose fields hold no line break gives
/// that record, unchanged.
pub proof fn lemma_round_trip(c: Credentials)
    requires
        storable(c),
    ensures
        decoded(record_text(c)) == Some(c),
{
    let s = record_text(c);
    assert(storable(c) && record_text(c) == s);
    let d = choose|d: Credentials| storable(d) && record_text(d) == s;
    lemma_record_text_injective(c, d);
}

/// The first line break at or after `from`.
fn find_break(s: &str, from: usize) -> (r: Option<usize>)
    requires
        from <= s@.len(),
    ensures
        match r {
            Some(k) => breaks_at(s@, from as int, k as int),
            None => forall|j: int| from <= j < s@.len() ==> s@[j] != '\n',
        },
{
    let n = s.unicode_len();
    let mut k: usize = from;
    while k < n
        invariant
            n == s@.len(),
            from <= k <= n,
            forall|j: int| from <= j < k ==> s@[j] != '\n',
        decreases n - k,
    {
        if s.get_char(k) == '\n' {
            return Some(k);
        }
        k = k + 1;
    }
    None
}

/// Whether `key` stands in `s` at position `at`.
fn key_at(s: &str, at: usize, key: &str) -> (r: bool)
    requires
        at <= s@.len(),
    ensures
        r == (at + key@.len() <= s@.len() && s@.subrange(at as int, at + key@.len()) == key@),
{
    let n = s.unicode_len();
    let m = key.unicode_len();
    if m > n - at {
        return false;
    }
    let mut j: usize = 0;
    while j < m
        invariant
            n == s@.len(),
            m == key@.len(),
            at + m <= n,
            j <= m,
            forall|i: int| 0 <= i < j ==> s@[at + i] == key@[i],
        decreases m - j,
    {
        if s.get_char(at + j) != key.get_char(j) {
            assert(s@.subrange(at as int, at + m)[j as int] != key@[j as int]);
            return false;
        }
        j = j + 1;
    }
    assert(s@.subrange(at as int, at + m) =~= key@);
    true
}

/// Whether `s` holds no line break.
fn is_one_line(s: &str) -> (r: bool)
    ensures
        r == one_line(s@),
{
    match find_break(s, 0) {
        Some(k) => false,
        None => true,
    }
}

/// Where a text holds a record, the places of its fields.
proof fn lemma_decoded_layout(s: Seq<char>)
    requires
        decoded(s) is Some,
    ensures
        ({
            let c = decoded(s)->0;
            let k1: int = 4 + c.api.len() as int;
            let k2: int = k1 + 6 + c.user_id.len() as int;
            let k3: int = k2 + 10 + c.password.len() as int;
            &&& storable(c)
            &&& record_text(c) == s
            &&& s.subrange(0, 4) == api_key()
            &&& breaks_at(s, 4, k1)
            &&& s.subrange(k1 + 1, k1 + 6) == user_key()
            &&& breaks_at(s, k1 + 6, k2)
            &&& s.subrange(k2 + 1, k2 + 10) == password_key()
            &&& breaks_at(s, k2 + 10, k3)
            &&& s.len() == k3 + 1
        }),
{
    lemma_layout(decoded(s)->0);
}

/// The fields that stand between the keys and line breaks of a stored text.
pub open spec fn fields_between(s: Seq<char>, k1: int, k2: int, k3: int) -> Credentials {
    Credentials {
        api: s.subrange(4, k1),
        user_id: s.subrange(k1 + 6, k2),
        password: s.subrange(k2 + 10, k3),
    }
}

/// A text with the keys and line breaks in their places is the stored form of the
/// fields between them.
proof fn lemma_assemble(s: Seq<char>, k1: int, k2: int, k3: int)
    requires
        4 <= s.len(),
        s.subrange(0, 4) == api_key(),
        breaks_at(s, 4, k1),
        k1 + 6 <= s.len(),
        s.subrange(k1 + 1, k1 + 6) == user_key(),
        breaks_at(s, k1 + 6, k2),
        k2 + 10 <= s.len(),
        s.subrange(k2 + 1, k2 + 10) == password_key(),
        breaks_at(s, k2 + 10, k3),
        s.len() == k3 + 1,
    ensures
        storable(fields_between(s, k1, k2, k3)),
        record_text(fields_between(s, k1, k2, k3)) == s,
{
    let c = fields_between(s, k1, k2, k3);
    assert(s == s.subrange(0, 4) + s.subrange(4, k1) + s.subrange(k1, k1 + 1) + s.subrange(
        k1 + 1,
        k1 + 6,
    ) + s.subrange(k1 + 6, k2) + s.subrange(k2, k2 + 1) + s.subrange(k2 + 1, k2 + 10)
        + s.subrange(k2 + 10, k3) + s.subrange(k3, k3 + 1));
    assert(s.subrange(k1, k1 + 1) =~= newline());
    assert(s.subrange(k2, k2 + 1) =~= newline());
    assert(s.subrange(k3, k3 + 1) =~= newline());
}

/// How a character stands in a stored field: `\` as `\\`, a line break as `\n`,
/// any other character as itself.
pub open spec fn esc_char(c: char) -> Seq<char> {
    if c == '\\' {
        seq!['\\', '\\']
    } else if c == '\n' {
        seq!['\\', 'n']
    } else {
        seq![c]
    }
}

/// A value as it stands in a stored field.
pub open spec fn escaped(s: Seq<char>) -> Seq<char>
    decreases s.len(),
{
    if s.len() == 0 {
        Seq::empty()
    } else {
        esc_char(s[0]) + escaped(s.drop_first())
    }
}

/// The value that a stored field stands for; `None` where the field holds a line
/// break, a lone `\`, or a `\` before anything but `\` and `n`.
pub open spec fn unescaped(y: Seq<char>) -> Option<Seq<char>>
    decreases y.len(),
{
    if y.len() == 0 {
        Some(Seq::empty())
    } else if y[0] == '\\' && y.len() >= 2 && (y[1] == '\\' || y[1] == 'n') {
        match unescaped(y.subrange(2, y.len() as int)) {
            Some(r) => Some(
                seq![
                    if y[1] == 'n' {
                        '\n'
                    } else {
                        '\\'
                    },
                ] + r,
            ),
            None => None,
        }
    } else if y[0] == '\\' || y[0] == '\n' {
        None
    } else {
        match unescaped(y.drop_first()) {
            Some(r) => Some(seq![y[0]] + r),
            None => None,
        }
    }
}

/// A record with each field escaped.
pub open spec fn escaped_fields(c: Credentials) -> Credentials {
    Credentials { api: escaped(c.api), user_id: escaped(c.user_id), password: escaped(c.password) }
}

/// The text that a record is stored as: the line text of its escaped fields.
pub open spec fn stored_text(c: Credentials) -> Seq<char> {
    record_text(escaped_fields(c))
}

/// The record that a stored text holds, if it holds one.
pub open spec fn stored_record(s: Seq<char>) -> Option<Credentials> {
    match decoded(s) {
        Some(l) => match (unescaped(l.api), unescaped(l.user_id), unescaped(l.password)) {
            (Some(a), Some(u), Some(p)) => Some(Credentials { api: a, user_id: u, password: p }),
            _ => None,
        },
        None => None,
    }
}

/// `p` put in front of what `o` holds.
pub open spec fn prefixed(p: Seq<char>, o: Option<Seq<char>>) -> Option<Seq<char>> {
    match o {
        Some(r) => Some(p + r),
        None => None,
    }
}

proof fn lemma_escaped_one_line(s: Seq<char>)
    ensures
        one_line(escaped(s)),
    decreases s.len(),
{
    if s.len() > 0 {
        lemma_escaped_one_line(s.drop_first());
        let e = escaped(s);
        let h = esc_char(s[0]);
        assert forall|i: int| 0 <= i < e.len() implies e[i] != '\n' by {
            if i >= h.len() {
                assert(e[i] == escaped(s.drop_first())[i - h.len()]);
            }
        }
    }
}

proof fn lemma_escaped_push(s: Seq<char>, c: char)
    ensures
        escaped(s.push(c)) == escaped(s) + esc_char(c),
    decreases s.len(),
{
    if s.len() == 0 {
        assert(s.push(c).drop_first() =~= Seq::<char>::empty());
        assert(s.push(c)[0] == c);
        assert(escaped(s.push(c).drop_first()) == Seq::<char>::empty());
        assert(escaped(s.push(c)) =~= esc_char(c));
    } else {
        assert(s.push(c).drop_first() =~= s.drop_first().push(c));
        lemma_escaped_push(s.drop_first(), c);
        assert(escaped(s.push(c)) =~= escaped(s) + esc_char(c));
    }
}

proof fn lemma_unescaped_escaped(s: Seq<char>)
    ensures
        unescaped(escaped(s)) == Some(s),
    decreases s.len(),
{
    if s.len() > 0 {
        let t = s.drop_first();
        lemma_unescaped_escaped(t);
        let y = escaped(s);
        if s[0] == '\\' || s[0] == '\n' {
            assert(y.subrange(2, y.len() as int) =~= escaped(t));
        } else {
            assert(y.drop_first() =~= escaped(t));
        }
        assert(seq![s[0]] + t =~= s);
    }
}

/// Reading back the text that a record is stored as gives that record, unchanged,
/// whatever its fields hold.
pub proof fn lemma_stored_round_trip(c: Credentials)
    ensures
        stored_record(stored_text(c)) == Some(c),
{
    lemma_escaped_one_line(c.api);
    lemma_escaped_one_line(c.user_id);
    lemma_escaped_one_line(c.password);
    lemma_round_trip(escaped_fields(c));
    lemma_unescaped_escaped(c.api);
    lemma_unescaped_escaped(c.user_id);
    lemma_unescaped_escaped(c.password);
}

/// A value as it stands in a stored field.
fn escape(s: &str) -> (r: String)
    ensures
        r@ == escaped(s@),
{
    let n = s.unicode_len();
    let mut out = String::new();
    let mut i: usize = 0;
    while i < n
        invariant
            n == s@.len(),
            i <= n,
            out@ == escaped(s@.subrange(0, i as int)),
        decreases n - i,
    {
        let c = s.get_char(i);
        proof {
            reveal_strlit("\\\\");
            reveal_strlit("\\n");
            assert("\\\\"@ =~= seq!['\\', '\\']);
            assert("\\n"@ =~= seq!['\\', 'n']);
            assert(s@.subrange(0, i + 1) =~= s@.subrange(0, i as int).push(c));
            lemma_escaped_push(s@.subrange(0, i as int), c);
        }
        if c == '\\' {
            out.append("\\\\");
        } else if c == '\n' {
            out.append("\\n");
        } else {
            assert(s@.subrange(i as int, i + 1) =~= seq![c]);
            out.append(s.substring_char(i, i + 1));
        }
        i = i + 1;
    }
    assert(s@.subrange(0, n as int) =~= s@);
    out
}

/// The value that a stored field stands for.
fn unescape(y: &str) -> (r: Option<String>)
    ensures
        match r {
            Some(x) => unescaped(y@) == Some(x@),
            None => unescaped(y@) is None,
        },
{
    let n = y.unicode_len();
    let mut out = String::new();
    let mut i: usize = 0;
    proof {
        assert(y@.subrange(0, n as int) =~= y@);
    }
    while i < n
        invariant
            n == y@.len(),
            i <= n,
            unescaped(y@) == prefixed(out@, unescaped(y@.subrange(i as int, n as int))),
        decreases n - i,
    {
        let c = y.get_char(i);
        let ghost t = y@.subrange(i as int, n as int);
        let ghost before = out@;
        proof {
            reveal_strlit("\\");
            reveal_strlit("\n");
            assert("\\"@ =~= seq!['\\']);
            assert("\n"@ =~= seq!['\n']);
            assert(t[0] == c);
            assert(t.drop_first() =~= y@.subrange(i + 1, n as int));
            if i + 2 <= n {
                assert(t[1] == y@[i + 1]);
                assert(t.subrange(2, t.len() as int) =~= y@.subrange(i + 2, n as int));
            }
        }
        if c == '\\' {
            if i + 1 < n {
                let d = y.get_char(i + 1);
                if d == '\\' {
                    out.append("\\");
                } else if d == 'n' {
                    out.append("\n");
                } else {
                    return None;
                }
                proof {
                    let rest = unescaped(y@.subrange(i + 2, n as int));
                    if rest is Some {
                        assert(before + (seq![if d == 'n' { '\n' } else { '\\' }] + rest->0)
                            =~= out@ + rest->0);
                    }
                }
                i = i + 2;
            } else {
                return None;
            }
        } else if c == '\n' {
            return None;
        } else {
            assert(y@.subrange(i as int, i + 1) =~= seq![c]);
            out.append(y.substring_char(i, i + 1));
            proof {
                let rest = unescaped(y@.subrange(i + 1, n as int));
                if rest is Some {
                    assert(before + (seq![c] + rest->0) =~= out@ + rest->0);
                }
            }
            i = i + 1;
        }
    }
    proof {
        assert(y@.subrange(n as int, n as int) =~= Seq::<char>::empty());
        assert(out@ + Seq::<char>::empty() =~= out@);
    }
    Some(out)
}

impl Data {
    pub fn new(api: String, user_id: String, password: String) -> (r: Data)
        ensures
            r@ == (Credentials { api: api@, user_id: user_id@, password: password@ }),
    {
        Data { wpengine_api: api, wpengine_user_id: user_id, wpengine_password: password }
    }

    /// The line text of a record whose fields hold no line break.
    fn join_lines(&self) -> (r: Option<String>)
        ensures
            match r {
                Some(t) => storable(self@) && t@ == record_text(self@),
                None => !storable(self@),
            },
    {
        if !is_one_line(self.wpengine_api.as_str()) || !is_one_line(self.wpengine_user_id.as_str())
            || !is_one_line(self.wpengine_password.as_str()) {
            return None;
        }
        let mut t = String::from_str("api=");
        t.append(self.wpengine_api.as_str());
        t.append("\nuser=");
        t.append(self.wpengine_user_id.as_str());
        t.append("\npassword=");
        t.append(self.wpengine_password.as_str());
        t.append("\n");
        proof {
            reveal_strlit("api=");
            reveal_strlit("\nuser=");
            reveal_strlit("\npassword=");
            reveal_strlit("\n");
            assert(t@ =~= record_text(self@));
        }
        Some(t)
    }

    /// The fields of a line text, as they stand in it.
    #[verifier::rlimit(100)]
    fn split_lines(text: &str) -> (r: Option<Data>)
        ensures
            match r {
                Some(d) => decoded(text@) == Some(d@),
                None => decoded(text@) is None,
            },
    {
        proof {
            reveal_strlit("api=");
            reveal_strlit("user=");
            reveal_strlit("password=");
            assert("api="@ =~= api_key());
            assert("user="@ =~= user_key());
            assert("password="@ =~= password_key());
            if decoded(text@) is Some {
                lemma_decoded_layout(text@);
            }
        }
        let n = text.unicode_len();
        if !key_at(text, 0, "api=") {
            return None;
        }
        let k1 = match find_break(text, 4) {
            Some(k) => k,
            None => {
                return None;
            },
        };
        proof {
            if decoded(text@) is Some {
                let c = decoded(text@)->0;
                lemma_break_unique(text@, 4, k1 as int, 4 + c.api.len() as int);
            }
        }
        if !key_at(text, k1 + 1, "user=") {
            return None;
        }
        let k2 = match find_break(text, k1 + 6) {
            Some(k) => k,
            None => {
                return None;
            },
        };
        proof {
            if decoded(text@) is Some {
                let c = decoded(text@)->0;
                lemma_break_unique(text@, k1 + 6, k2 as int, k1 + 6 + c.user_id.len() as int);
            }
        }
        if !key_at(text, k2 + 1, "password=") {
            return None;
        }
        let k3 = match find_break(text, k2 + 10) {
            Some(k) => k,
            None => {
                return None;
            },
        };
        proof {
            if decoded(text@) is Some {
                let c = decoded(text@)->0;
                lemma_break_unique(text@, k2 + 10, k3 as int, k2 + 10 + c.password.len() as int);
            }
        }
        if k3 + 1 != n {
            return None;
        }
        let d = Data {
            wpengine_api: String::from_str(text.substring_char(4, k1)),
            wpengine_user_id: String::from_str(text.substring_char(k1 + 6, k2)),
            wpengine_password: String::from_str(text.substring_char(k2 + 10, k3)),
        };
        proof {
            lemma_assemble(text@, k1 as int, k2 as int, k3 as int);
            assert(d@ == fields_between(text@, k1 as int, k2 as int, k3 as int));
            lemma_round_trip(d@);
        }
        Some(d)
    }
    /// The text that the record is stored as: one `key=value` line per field, with
    /// `\` and line breaks in a value escaped as `\\` and `\n`.
    pub fn to_text(&self) -> (r: String)
        ensures
            r@ == stored_text(self@),
    {
        let e = Data::new(
            escape(self.wpengine_api.as_str()),
            escape(self.wpengine_user_id.as_str()),
            escape(self.wpengine_password.as_str()),
        );
        proof {
            lemma_escaped_one_line(self@.api);
            lemma_escaped_one_line(self@.user_id);
            lemma_escaped_one_line(self@.password);
        }
        match e.join_lines() {
            Some(t) => t,
            None => String::new(),
        }
    }

    /// The record that a stored text holds; `None` where the text is not the stored
    /// form of any record.
    pub fn from_text(text: &str) -> (r: Option<Data>)
        ensures
            match r {
                Some(d) => stored_record(text@) == Some(d@),
                None => stored_record(text@) is None,
            },
    {
        let l = match Data::split_lines(text) {
            Some(l) => l,
            None => {
                return None;
            },
        };
        let api = match unescape(l.wpengine_api.as_str()) {
            Some(a) => a,
            None => {
                return None;
            },
        };
        let user_id = match unescape(l.wpengine_user_id.as_str()) {
            Some(u) => u,
            None => {
                return None;
            },
        };
        let password = match unescape(l.wpengine_password.as_str()) {
            Some(p) => p,
            None => {
                return None;
            },
        };
        Some(Data::new(api, user_id, password))
    }
}

} // verus!
