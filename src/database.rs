//! The two record kinds that the persistence collaborator stores, how they are
//! built from a POST body's parameters and written out in a response, and the
//! table definitions the collaborator runs.
use vstd::prelude::*;
use vstd::string::*;
use crate::codec::contains;
use crate::response::{parameter, parameter_spec, pair_texts};
use crate::text::{
    append_lines, bool_string, bool_text, decimal, decimal_spec, parse_unsigned, same_text,
    terminated_lines, texts, unsigned_value,
};

verus! {

#[derive(Debug, Clone)]
pub struct User {
    pub role_id: u64,
    pub username: String,
    pub email: String,
    pub password: String,
    pub config: String,
    pub active: bool,
    pub remember_token: String,
    pub avatar: String,
    pub created_at: String,
    pub updated_at: String,
}

#[derive(Debug, Clone)]
pub struct Token {
    pub user_id: u64,
    pub token_type: String,
    pub access_token: String,
    pub refresh_token: String,
    pub token_expire: String,
    pub created_at: String,
    pub updated_at: String,
}

/// Why a record cannot be built from a body's parameters.
#[derive(PartialEq, Eq, Structural, Clone, Copy, Debug)]
pub enum RecordError {
    /// A field has no parameter.
    MissingField,
    /// The id is not an unsigned 64-bit number.
    BadId,
}

/// A record's text in a response: a line terminator, then each field on a
/// line of its own.
pub open spec fn record_text(fields: Seq<Seq<char>>) -> Seq<char> {
    "\r\n"@ + terminated_lines(fields)
}

impl User {
    /// The fields of a user, in order, as text.
    pub open spec fn field_texts(&self) -> Seq<Seq<char>> {
        seq![
            decimal_spec(self.role_id as nat),
            self.username@,
            self.email@,
            self.password@,
            self.config@,
            bool_text(self.active),
            self.remember_token@,
            self.avatar@,
            self.created_at@,
            self.updated_at@,
        ]
    }

    /// The user's text in a response.
    pub fn user_to_string(user: &User) -> (r: String)
        ensures
            r@ == record_text(user.field_texts()),
    {
        let fields = vec![
            decimal(user.role_id),
            user.username.clone(),
            user.email.clone(),
            user.password.clone(),
            user.config.clone(),
            bool_string(user.active),
            user.remember_token.clone(),
            user.avatar.clone(),
            user.created_at.clone(),
            user.updated_at.clone(),
        ];
        let mut r = String::from_str("\r\n");
        append_lines(&mut r, &fields);
        assert(texts(fields@) =~= user.field_texts());
        r
    }

    /// The text of every user, one after the other.
    pub fn users_to_string(users: &Vec<User>) -> (r: String)
        ensures
            r@ == users_text(users@),
    {
        let mut r = String::new();
        let mut i: usize = 0;
        while i < users.len()
            invariant
                i <= users@.len(),
                r@ == users_text(users@.take(i as int)),
            decreases users@.len() - i,
        {
            assert(users@.take(i + 1).drop_last() =~= users@.take(i as int));
            let t = User::user_to_string(&users[i]);
            r.append(t.as_str());
            i = i + 1;
        }
        assert(users@.take(users@.len() as int) =~= users@);
        r
    }
}

/// The text of each user, one after the other.
pub open spec fn users_text(users: Seq<User>) -> Seq<char>
    decreases users.len(),
{
    if users.len() == 0 {
        Seq::empty()
    } else {
        users_text(users.drop_last()) + record_text(users.last().field_texts())
    }
}

impl Token {
    /// The fields of a token, in order, as text.
    pub open spec fn field_texts(&self) -> Seq<Seq<char>> {
        seq![
            decimal_spec(self.user_id as nat),
            self.token_type@,
            self.access_token@,
            self.refresh_token@,
            self.token_expire@,
            self.created_at@,
            self.updated_at@,
        ]
    }

    /// The token's text in a response.
    pub fn token_to_string(token: &Token) -> (r: String)
        ensures
            r@ == record_text(token.field_texts()),
    {
        let fields = vec![
            decimal(token.user_id),
            token.token_type.clone(),
            token.access_token.clone(),
            token.refresh_token.clone(),
            token.token_expire.clone(),
            token.created_at.clone(),
            token.updated_at.clone(),
        ];
        let mut r = String::from_str("\r\n");
        append_lines(&mut r, &fields);
        assert(texts(fields@) =~= token.field_texts());
        r
    }

    /// The text of every token, one after the other.
    pub fn tokens_to_string(tokens: &Vec<Token>) -> (r: String)
        ensures
            r@ == tokens_text(tokens@),
    {
        let mut r = String::new();
        let mut i: usize = 0;
        while i < tokens.len()
            invariant
                i <= tokens@.len(),
                r@ == tokens_text(tokens@.take(i as int)),
            decreases tokens@.len() - i,
        {
            assert(tokens@.take(i + 1).drop_last() =~= tokens@.take(i as int));
            let t = Token::token_to_string(&tokens[i]);
            r.append(t.as_str());
            i = i + 1;
        }
        assert(tokens@.take(tokens@.len() as int) =~= tokens@);
        r
    }
}

/// The text of each token, one after the other.
pub open spec fn tokens_text(tokens: Seq<Token>) -> Seq<char>
    decreases tokens.len(),
{
    if tokens.len() == 0 {
        Seq::empty()
    } else {
        tokens_text(tokens.drop_last()) + record_text(tokens.last().field_texts())
    }
}

/// The value of parameter `key`, or the missing-field error.
fn required<'a>(pairs: &'a Vec<(String, String)>, key: &str) -> (r: Result<&'a String, RecordError>)
    ensures
        r matches Ok(v) ==> parameter_spec(pair_texts(pairs@), key@) == Some(v@),
        r is Err ==> parameter_spec(pair_texts(pairs@), key@) is None && r == Err::<
            &String,
            RecordError,
        >(RecordError::MissingField),
{
    match parameter(pairs, key) {
        Some(v) => Ok(v),
        None => Err(RecordError::MissingField),
    }
}

/// An id as a body writes it.
fn id_of(v: &String) -> (r: Result<u64, RecordError>)
    ensures
        r matches Ok(n) ==> unsigned_value(v@, u64::MAX as int) == Some(n as int),
        r is Err ==> unsigned_value(v@, u64::MAX as int) is None && r == Err::<u64, RecordError>(
            RecordError::BadId,
        ),
{
    match parse_unsigned(v.as_str(), u64::MAX) {
        Some(n) => Ok(n),
        None => Err(RecordError::BadId),
    }
}

/// The parameter for `key` of `ps`.
pub open spec fn param(ps: Seq<(Seq<char>, Seq<char>)>, key: &str) -> Option<Seq<char>> {
    parameter_spec(ps, key@)
}

/// The field names of a user, in order.
pub open spec fn user_keys() -> Seq<Seq<char>> {
    seq![
        "role_id"@,
        "username"@,
        "email"@,
        "password"@,
        "config"@,
        "active"@,
        "remember_token"@,
        "avatar"@,
        "created_at"@,
        "updated_at"@,
    ]
}

/// The field names of a token, in order.
pub open spec fn token_keys() -> Seq<Seq<char>> {
    seq![
        "user_id"@,
        "token_type"@,
        "access_token"@,
        "refresh_token"@,
        "token_expire"@,
        "created_at"@,
        "updated_at"@,
    ]
}

/// Every key has a parameter.
pub open spec fn all_present(ps: Seq<(Seq<char>, Seq<char>)>, keys: Seq<Seq<char>>) -> bool {
    forall|k: int| 0 <= k < keys.len() ==> parameter_spec(ps, #[trigger] keys[k]) is Some
}

/// What building a record from `ps` fails with, if it fails: a missing field,
/// else an id that is not a number.
pub open spec fn record_error(
    ps: Seq<(Seq<char>, Seq<char>)>,
    keys: Seq<Seq<char>>,
) -> Option<RecordError> {
    if !all_present(ps, keys) {
        Some(RecordError::MissingField)
    } else if unsigned_value(parameter_spec(ps, keys[0])->0, u64::MAX as int) is None {
        Some(RecordError::BadId)
    } else {
        None
    }
}

impl User {
    /// The user that a POST body's parameters describe; `active` is set only by
    /// the text `true`.
    pub fn from_params(pairs: &Vec<(String, String)>) -> (r: Result<User, RecordError>)
        ensures
            match record_error(pair_texts(pairs@), user_keys()) {
                Some(e) => r == Err::<User, RecordError>(e),
                None => r matches Ok(u) && u.field_texts() == {
                    let ps = pair_texts(pairs@);
                    seq![
                        decimal_spec(u.role_id as nat),
                        param(ps, "username")->0,
                        param(ps, "email")->0,
                        param(ps, "password")->0,
                        param(ps, "config")->0,
                        bool_text(param(ps, "active")->0 == "true"@),
                        param(ps, "remember_token")->0,
                        param(ps, "avatar")->0,
                        param(ps, "created_at")->0,
                        param(ps, "updated_at")->0,
                    ]
                } && unsigned_value(param(pair_texts(pairs@), "role_id")->0, u64::MAX as int) == Some(
                    u.role_id as int,
                ),
            },
    {
        let ghost ps = pair_texts(pairs@);
        let ghost keys = user_keys();
        let role_id = required(pairs, "role_id");
        let username = required(pairs, "username");
        let email = required(pairs, "email");
        let password = required(pairs, "password");
        let config = required(pairs, "config");
        let active = required(pairs, "active");
        let remember_token = required(pairs, "remember_token");
        let avatar = required(pairs, "avatar");
        let created_at = required(pairs, "created_at");
        let updated_at = required(pairs, "updated_at");
        let ghost found = seq![
            role_id is Ok,
            username is Ok,
            email is Ok,
            password is Ok,
            config is Ok,
            active is Ok,
            remember_token is Ok,
            avatar is Ok,
            created_at is Ok,
            updated_at is Ok,
        ];
        assert(forall|k: int| 0 <= k < 10 ==> (found[k] <==> parameter_spec(ps, keys[k]) is Some));
        match (role_id, username, email, password, config, active, remember_token, avatar, created_at, updated_at) {
            (Ok(ri), Ok(un), Ok(em), Ok(pw), Ok(cf), Ok(ac), Ok(rt), Ok(av), Ok(ca), Ok(ua)) => {
                assert(all_present(ps, keys));
                let id = match id_of(ri) {
                    Ok(n) => n,
                    Err(e) => {
                        return Err(e);
                    },
                };
                proof { reveal_strlit("true"); }
                let is_active = same_text(ac.as_str(), "true");
                Ok(
                    User {
                        role_id: id,
                        username: un.clone(),
                        email: em.clone(),
                        password: pw.clone(),
                        config: cf.clone(),
                        active: is_active,
                        remember_token: rt.clone(),
                        avatar: av.clone(),
                        created_at: ca.clone(),
                        updated_at: ua.clone(),
                    },
                )
            },
            _ => {
                assert(!all_present(ps, keys)) by {
                    let k = choose|k: int| 0 <= k < 10 && !found[k];
                    assert(parameter_spec(ps, keys[k]) is None);
                }
                Err(RecordError::MissingField)
            },
        }
    }
}

impl Token {
    /// The token that a POST body's parameters describe.
    pub fn from_params(pairs: &Vec<(String, String)>) -> (r: Result<Token, RecordError>)
        ensures
            match record_error(pair_texts(pairs@), token_keys()) {
                Some(e) => r == Err::<Token, RecordError>(e),
                None => r matches Ok(t) && t.field_texts() == {
                    let ps = pair_texts(pairs@);
                    seq![
                        decimal_spec(t.user_id as nat),
                        param(ps, "token_type")->0,
                        param(ps, "access_token")->0,
                        param(ps, "refresh_token")->0,
                        param(ps, "token_expire")->0,
                        param(ps, "created_at")->0,
                        param(ps, "updated_at")->0,
                    ]
                } && unsigned_value(param(pair_texts(pairs@), "user_id")->0, u64::MAX as int) == Some(
                    t.user_id as int,
                ),
            },
    {
        let ghost ps = pair_texts(pairs@);
        let ghost keys = token_keys();
        let user_id = required(pairs, "user_id");
        let token_type = required(pairs, "token_type");
        let access_token = required(pairs, "access_token");
        let refresh_token = required(pairs, "refresh_token");
        let token_expire = required(pairs, "token_expire");
        let created_at = required(pairs, "created_at");
        let updated_at = required(pairs, "updated_at");
        let ghost found = seq![
            user_id is Ok,
            token_type is Ok,
            access_token is Ok,
            refresh_token is Ok,
            token_expire is Ok,
            created_at is Ok,
            updated_at is Ok,
        ];
        assert(forall|k: int| 0 <= k < 7 ==> (found[k] <==> parameter_spec(ps, keys[k]) is Some));
        match (user_id, token_type, access_token, refresh_token, token_expire, created_at, updated_at) {
            (Ok(ui), Ok(tt), Ok(at), Ok(rt), Ok(te), Ok(ca), Ok(ua)) => {
                assert(all_present(ps, keys));
                let id = match id_of(ui) {
                    Ok(n) => n,
                    Err(e) => {
                        return Err(e);
                    },
                };
                Ok(
                    Token {
                        user_id: id,
                        token_type: tt.clone(),
                        access_token: at.clone(),
                        refresh_token: rt.clone(),
                        token_expire: te.clone(),
                        created_at: ca.clone(),
                        updated_at: ua.clone(),
                    },
                )
            },
            _ => {
                assert(!all_present(ps, keys)) by {
                    let k = choose|k: int| 0 <= k < 7 && !found[k];
                    assert(parameter_spec(ps, keys[k]) is None);
                }
                Err(RecordError::MissingField)
            },
        }
    }
}


/// The SQL definition of a column: `id` is the key, a name holding `_id` a
/// reference, the two time stamps default to now, any other a short text.
pub open spec fn column_def(c: Seq<char>) -> Seq<char> {
    if c == "id"@ {
        c + " BIGINT AUTO_INCREMENT PRIMARY KEY"@
    } else if contains(c, "_id"@) {
        c + " BIGINT"@
    } else if c == "created_at"@ || c == "updated_at"@ {
        c + " TIMESTAMP NOT NULL DEFAULT CURRENT_TIMESTAMP()"@
    } else {
        c + " VARCHAR(255) NOT NULL"@
    }
}

/// The definitions of `cols`, separated by a comma and a space.
pub open spec fn column_defs(cols: Seq<Seq<char>>) -> Seq<char>
    decreases cols.len(),
{
    if cols.len() == 0 {
        Seq::empty()
    } else if cols.len() == 1 {
        column_def(cols[0])
    } else {
        column_defs(cols.drop_last()) + ", "@ + column_def(cols.last())
    }
}

/// The statement that creates `table` with `cols`.
pub open spec fn create_table_spec(table: Seq<char>, cols: Seq<Seq<char>>) -> Seq<char> {
    "CREATE TABLE "@ + table + " ("@ + column_defs(cols) + ")"@
}

fn holds_id_suffix(c: &str) -> (r: bool)
    ensures
        r == contains(c@, "_id"@),
{
    proof { reveal_strlit("_id"); }
    let chars = crate::text::chars_of(c);
    let n = chars.len();
    let mut i: usize = 0;
    while i < n && n - i >= 3
        invariant
            n == chars@.len(),
            chars@ == c@,
            "_id"@ == seq!['_', 'i', 'd'],
            forall|j: int| 0 <= j < i ==> !crate::codec::occurs_at(c@, "_id"@, j),
        decreases n - i,
    {
        if chars[i] == '_' && chars[i + 1] == 'i' && chars[i + 2] == 'd' {
            assert(c@.subrange(i as int, i + 3) =~= "_id"@);
            assert(crate::codec::occurs_at(c@, "_id"@, i as int));
            return true;
        }
        assert(c@.subrange(i as int, i + 3)[0] == c@[i as int]);
        assert(c@.subrange(i as int, i + 3)[1] == c@[i + 1]);
        assert(c@.subrange(i as int, i + 3)[2] == c@[i + 2]);
        i = i + 1;
    }
    false
}

fn column_definition(c: &str) -> (r: String)
    ensures
        r@ == column_def(c@),
{
    let mut r = String::from_str(c);
    if same_text(c, "id") {
        r.append(" BIGINT AUTO_INCREMENT PRIMARY KEY");
    } else if holds_id_suffix(c) {
        r.append(" BIGINT");
    } else if same_text(c, "created_at") || same_text(c, "updated_at") {
        r.append(" TIMESTAMP NOT NULL DEFAULT CURRENT_TIMESTAMP()");
    } else {
        r.append(" VARCHAR(255) NOT NULL");
    }
    r
}

/// The statement that creates `table` with the columns `columns`.
pub fn create_table(table: &str, columns: &Vec<String>) -> (r: String)
    ensures
        r@ == create_table_spec(table@, texts(columns@)),
{
    let mut defs = String::new();
    let mut i: usize = 0;
    while i < columns.len()
        invariant
            i <= columns@.len(),
            defs@ == column_defs(texts(columns@).take(i as int)),
        decreases columns@.len() - i,
    {
        let ghost h = texts(columns@);
        assert(h.take(i + 1).drop_last() =~= h.take(i as int));
        assert(h.take(i + 1).last() == columns@[i as int]@);
        if i > 0 {
            defs.append(", ");
        }
        let d = column_definition(columns[i].as_str());
        defs.append(d.as_str());
        proof {
            if i == 0 {
                assert(h.take(0) =~= Seq::<Seq<char>>::empty());
                assert(defs@ =~= column_def(h[0]));
            }
        }
        i = i + 1;
    }
    assert(texts(columns@).take(columns@.len() as int) =~= texts(columns@));
    let mut r = String::from_str("CREATE TABLE ");
    r.append(table);
    r.append(" (");
    r.append(defs.as_str());
    r.append(")");
    r
}

} // verus!
