//! Parsing of client-supplied command lines: the hash-or-link token, one
//! `fetch <hash> <name>` line, and one `push [+]<src>:<dst>` line. Each
//! parser's behaviour, successes and failures alike, is pinned down by a
//! specification function of the line's characters.
use crate::errors::ProtoError;
use crate::hex::{all_hex, bytes_of_hex, decode_hex, hex_digit, hex_of_bytes, is_hex_digit,
    lemma_bytes_of_hex_len, lemma_hex_round_trip};
use crate::model::{FetchModel, FetchObject, Object, ObjectModel, PushModel, PushObject};
use crate::text::{count_char, find_char, lemma_count_take_snoc, lemma_find_first, tokenize,
    tokens_of};
use vstd::prelude::*;

verus! {

/// What parsing a hash-or-link token yields: the remainder after `@` as a
/// link name, or the twenty bytes behind exactly forty hex characters;
/// every other shape is an error.
pub open spec fn parse_object_spec(tok: Seq<char>) -> Result<ObjectModel, ProtoError> {
    if tok.len() > 0 && tok[0] == '@' {
        Ok(ObjectModel::Link(tok.drop_first()))
    } else if tok.len() == 40 && all_hex(tok) {
        Ok(ObjectModel::Hash(bytes_of_hex(tok)))
    } else {
        Err(ProtoError::BadHash)
    }
}

/// A successfully parsed token is a well-formed object: a hash in it has
/// exactly twenty bytes.
pub proof fn lemma_parse_object_wf(tok: Seq<char>)
    ensures
        parse_object_spec(tok) is Ok ==> parse_object_spec(tok)->Ok_0.wf(),
{
    if !(tok.len() > 0 && tok[0] == '@') && tok.len() == 40 && all_hex(tok) {
        lemma_bytes_of_hex_len(tok);
    }
}

/// Encoding twenty bytes and parsing the result gives back exactly those
/// bytes, for every byte sequence.
pub proof fn lemma_parse_encoded_hash(b: Seq<u8>)
    requires
        b.len() == 20,
    ensures
        parse_object_spec(hex_of_bytes(b)) == Ok::<ObjectModel, ProtoError>(ObjectModel::Hash(b)),
{
    lemma_hex_round_trip(b);
    let s = hex_of_bytes(b);
    assert(is_hex_digit(s[0]));
    assert(s[0] != '@');
}

/// Parses a hash-or-link token.
pub fn parse_object(s: &str) -> (r: Result<Object, ProtoError>)
    ensures
        r is Ok <==> parse_object_spec(s@) is Ok,
        r is Ok ==> r->Ok_0@ == parse_object_spec(s@)->Ok_0,
        r is Err ==> r->Err_0 == parse_object_spec(s@)->Err_0,
{
    let n = s.unicode_len();
    if n > 0 && s.get_char(0) == '@' {
        let rest = s.substring_char(1, n).to_owned();
        proof {
            assert(s@.subrange(1, n as int) =~= s@.drop_first());
        }
        Ok(Object::Link(rest))
    } else if n == 40 {
        let mut i: usize = 0;
        while i < 40
            invariant
                n == s@.len(),
                n == 40,
                i <= 40,
                s@[0] != '@',
                forall|m: int| 0 <= m < i ==> is_hex_digit(s@[m]),
            decreases 40 - i,
        {
            let c = s.get_char(i);
            if !hex_digit(c) {
                proof {
                    assert(!is_hex_digit(s@[i as int]));
                    assert(!all_hex(s@));
                }
                return Err(ProtoError::BadHash);
            }
            i = i + 1;
        }
        proof {
            assert(all_hex(s@));
            assert(s@.subrange(0, 40) =~= s@);
        }
        let bytes = decode_hex(s, 0, 20);
        Ok(Object::Hash(bytes))
    } else {
        Err(ProtoError::BadHash)
    }
}

/// What one `fetch` line yields. The line's tokens must be exactly
/// `fetch`, a parsable hash-or-link token, and a name; the object-store
/// path joins `root`, the token's first two characters, and the rest.
pub open spec fn parse_fetch_spec(l: Seq<char>, root: Seq<char>) -> Result<
    FetchModel,
    ProtoError,
> {
    let toks = tokens_of(l);
    if toks.len() < 2 {
        Err(ProtoError::MissingHash)
    } else if toks.len() == 2 {
        Err(ProtoError::MissingName)
    } else if toks.len() > 3 {
        Err(ProtoError::ExtraFetchArg)
    } else {
        let tok = toks[1];
        match parse_object_spec(tok) {
            Ok(obj) => if tok.len() < 2 {
                Err(ProtoError::ShortFetchToken)
            } else {
                Ok(
                    FetchModel {
                        object: obj,
                        name: toks[2],
                        path: root + seq!['/'] + tok.take(2) + seq!['/'] + tok.skip(2),
                    },
                )
            },
            Err(e) => Err(e),
        }
    }
}

/// Parses one `fetch <hash> <name>` line against the object-store root.
pub fn parse_fetch_line(l: &str, root: &str) -> (r: Result<FetchObject, ProtoError>)
    ensures
        r is Ok <==> parse_fetch_spec(l@, root@) is Ok,
        r is Ok ==> r->Ok_0@ == parse_fetch_spec(l@, root@)->Ok_0,
        r is Err ==> r->Err_0 == parse_fetch_spec(l@, root@)->Err_0,
{
    let toks = tokenize(l);
    if toks.len() < 2 {
        return Err(ProtoError::MissingHash);
    }
    if toks.len() == 2 {
        return Err(ProtoError::MissingName);
    }
    if toks.len() > 3 {
        return Err(ProtoError::ExtraFetchArg);
    }
    let tok = &toks[1];
    proof {
        assert(toks.deep_view()[1] == toks@[1]@);
        assert(toks.deep_view()[2] == toks@[2]@);
    }
    let obj = match parse_object(tok.as_str()) {
        Ok(o) => o,
        Err(e) => {
            return Err(e);
        },
    };
    let tn = tok.as_str().unicode_len();
    if tn < 2 {
        return Err(ProtoError::ShortFetchToken);
    }
    proof {
        reveal_strlit("/");
        assert("/"@ =~= seq!['/']);
    }
    let mut path = String::from_str(root);
    path.append("/");
    path.append(tok.as_str().substring_char(0, 2));
    path.append("/");
    path.append(tok.as_str().substring_char(2, tn));
    let name = toks[2].clone();
    proof {
        assert(tok@.subrange(0, 2) =~= tok@.take(2));
        assert(tok@.subrange(2, tn as int) =~= tok@.skip(2));
        assert(path@ =~= root@ + seq!['/'] + tok@.take(2) + seq!['/'] + tok@.skip(2));
    }
    Ok(FetchObject { object: obj, name, path })
}

/// What one `push` line yields. The second token is the ref-spec: an
/// optional leading `+` asks for a forced update, and exactly one `:`
/// separates source from destination. Tokens beyond the ref-spec are
/// ignored.
pub open spec fn parse_push_spec(l: Seq<char>) -> Result<PushModel, ProtoError> {
    let toks = tokens_of(l);
    if toks.len() < 2 {
        Err(ProtoError::MissingRefSpec)
    } else {
        let rs = toks[1];
        let forced = rs.len() > 0 && rs[0] == '+';
        let body = if forced {
            rs.drop_first()
        } else {
            rs
        };
        if count_char(body, ':') == 0 {
            Err(ProtoError::MissingDst)
        } else if count_char(body, ':') > 1 {
            Err(ProtoError::ExtraRefSpecPart)
        } else {
            let k = find_char(body, ':');
            Ok(PushModel { forced, src: body.take(k), dst: body.skip(k + 1) })
        }
    }
}

/// Parses one `push [+]<src>:<dst>` line.
pub fn parse_push_line(l: &str) -> (r: Result<PushObject, ProtoError>)
    ensures
        r is Ok <==> parse_push_spec(l@) is Ok,
        r is Ok ==> r->Ok_0@ == parse_push_spec(l@)->Ok_0,
        r is Err ==> r->Err_0 == parse_push_spec(l@)->Err_0,
{
    let toks = tokenize(l);
    if toks.len() < 2 {
        return Err(ProtoError::MissingRefSpec);
    }
    let rs = &toks[1];
    proof {
        assert(toks.deep_view()[1] == toks@[1]@);
    }
    let rss = rs.as_str();
    let rn = rss.unicode_len();
    let forced = rn > 0 && rss.get_char(0) == '+';
    let start: usize = if forced {
        1
    } else {
        0
    };
    let ghost body = if forced {
        rs@.drop_first()
    } else {
        rs@
    };
    proof {
        assert(body =~= rs@.skip(start as int));
    }
    let mut i: usize = start;
    let mut colons: usize = 0;
    let mut first: usize = 0;
    let mut found = false;
    while i < rn
        invariant
            rn == rs@.len(),
            rss@ == rs@,
            body == rs@.skip(start as int),
            start <= i <= rn,
            colons <= i - start,
            colons == count_char(body.take(i - start), ':'),
            found ==> start <= first < i && rs@[first as int] == ':' && forall|m: int|
                start <= m < first ==> rs@[m] != ':',
            !found ==> forall|m: int| start <= m < i ==> rs@[m] != ':',
            found == (colons > 0),
        decreases rn - i,
    {
        let c = rss.get_char(i);
        proof {
            lemma_count_take_snoc(body, ':', i - start);
            assert(body[i - start] == rs@[i as int]);
        }
        if c == ':' {
            colons = colons + 1;
            if !found {
                found = true;
                first = i;
            }
        }
        i = i + 1;
    }
    proof {
        assert(body.take(rn - start) =~= body);
    }
    if colons == 0 {
        return Err(ProtoError::MissingDst);
    }
    if colons > 1 {
        return Err(ProtoError::ExtraRefSpecPart);
    }
    proof {
        assert(body[first - start] == rs@[first as int]);
        assert(forall|m: int| 0 <= m < first - start ==> body[m] == rs@[m + start]);
        lemma_find_first(body, ':', first - start);
    }
    let src = rss.substring_char(start, first).to_owned();
    let dst = rss.substring_char(first + 1, rn).to_owned();
    proof {
        let k = find_char(body, ':');
        assert(rs@.subrange(start as int, first as int) =~= body.take(k));
        assert(rs@.subrange(first as int + 1, rn as int) =~= body.skip(k + 1));
    }
    Ok(PushObject { forced, src, dst })
}

} // verus!
