//! Semantic text splitting driven by a chat model.
//!
//! The splitter decides whether a text needs splitting at all, builds
//! the instruction prompt for the model, and parses the model's
//! delimiter-separated reply back into an ordered list of segments.
//! The chat call itself is asynchronous network I/O and happens outside
//! the library; `split_plan` says when it is needed and with which
//! prompt, and `parse_segments` interprets whatever came back.

use vstd::prelude::*;

use crate::client::{Client, Model};
use crate::error::Error;
use crate::text::{
    decimal_string, dec_digits, delim, find_delim, has_delim_at, lemma_delim_at_subrange,
    lemma_find_delim_props, spec_trim, split_delim, trim_str,
};

verus! {

/// The instruction text that precedes the length budget in the prompt.
pub open spec fn prompt_head() -> Seq<char> {
    "请将以下文本分割成多个段落，每个段落的字符数不超过 "@
}

/// The instruction text between the length budget and the input text.
pub open spec fn prompt_tail() -> Seq<char> {
    " 字符。分割时要保持语义完整性，优先按照句子的自然边界（如句号、问号、感叹号）进行分割。分割后，请按顺序输出每个段落，每个段落用特殊标记 ||| 分隔。不要添加任何解释性文字，只输出分割后的段落。\n\n待分割的文本：\n"@
}

/// The whole splitting prompt for a given length budget and text.
pub open spec fn spec_build_prompt(max: nat, text: Seq<char>) -> Seq<char> {
    prompt_head() + dec_digits(max) + prompt_tail() + text
}

/// The delimiter pieces after trimming, with empty pieces dropped.
pub open spec fn clean_pieces(ps: Seq<Seq<char>>) -> Seq<Seq<char>>
    decreases ps.len(),
{
    if ps.len() == 0 {
        Seq::empty()
    } else {
        let h = spec_trim(ps.first());
        let rest = clean_pieces(ps.drop_first());
        if h.len() > 0 {
            seq![h] + rest
        } else {
            rest
        }
    }
}

/// What parsing a raw model reply yields: the trimmed non-empty pieces
/// between delimiters, or the whole reply when no piece survives.
pub open spec fn spec_parse_segments(s: Seq<char>) -> Seq<Seq<char>> {
    let pieces = clean_pieces(split_delim(s));
    if pieces.len() == 0 {
        seq![s]
    } else {
        pieces
    }
}

/// What `split` decides before any network traffic: short inputs are
/// already segmented, long ones need the model.
pub enum SplitPlan {
    /// The segments are known without calling the model.
    Ready { segments: Vec<String> },
    /// The model must be asked with this prompt.
    Request { prompt: String },
}

/// Splits long text into semantically coherent segments with the help
/// of a chat model.
pub struct AiSplitter {
    pub client: Client,
    pub max_length: usize,
}

impl AiSplitter {
    /// A splitter for the given credentials, model and length budget.
    pub fn new(api_key: &str, model: Model, max_length: usize) -> (r: Self)
        ensures
            r.client.api_key@ == api_key@,
            r.client.model == model,
            !r.client.thinking,
            !r.client.coding_plan,
            r.max_length == max_length,
    {
        let client = Client::new(api_key).with_model(model);
        AiSplitter { client, max_length }
    }

    /// Enable or disable thinking mode for the splitting conversation.
    pub fn with_thinking(self, enable: bool) -> (r: Self)
        ensures
            r.client == (Client { thinking: enable, ..self.client }),
            r.max_length == self.max_length,
    {
        AiSplitter { client: self.client.with_thinking(enable), max_length: self.max_length }
    }

    /// Enable or disable the coding-plan endpoint.
    pub fn with_coding_plan(self, enable: bool) -> (r: Self)
        ensures
            r.client == (Client { coding_plan: enable, ..self.client }),
            r.max_length == self.max_length,
    {
        AiSplitter { client: self.client.with_coding_plan(enable), max_length: self.max_length }
    }

    /// Decide how to split: empty text has no segments, text within the
    /// budget is its own single segment and needs no network call, and
    /// longer text must be sent to the model with the splitting prompt.
    pub fn split_plan(&self, text: &str) -> (r: SplitPlan)
        ensures
            text@.len() == 0 ==> (r matches SplitPlan::Ready { segments } && segments@.len()
                == 0),
            0 < text@.len() <= self.max_length ==> (r matches SplitPlan::Ready { segments }
                && segments.deep_view() == seq![text@]),
            text@.len() > self.max_length ==> (r matches SplitPlan::Request { prompt } && prompt@
                == spec_build_prompt(self.max_length as nat, text@)),
    {
        let n = text.unicode_len();
        if n == 0 {
            SplitPlan::Ready { segments: Vec::new() }
        } else if n <= self.max_length {
            let mut segments: Vec<String> = Vec::new();
            segments.push(text.to_owned());
            proof {
                assert(segments.deep_view() =~= seq![text@]);
            }
            SplitPlan::Ready { segments }
        } else {
            SplitPlan::Request { prompt: self.build_prompt(text) }
        }
    }

    /// Build the prompt that instructs the model to split `text` under
    /// this splitter's length budget, using the segment delimiter.
    pub fn build_prompt(&self, text: &str) -> (r: String)
        ensures
            r@ == spec_build_prompt(self.max_length as nat, text@),
    {
        let mut p = String::from_str(
            "请将以下文本分割成多个段落，每个段落的字符数不超过 ",
        );
        let num = decimal_string(self.max_length as u64);
        p.append(num.as_str());
        p.append(
            " 字符。分割时要保持语义完整性，优先按照句子的自然边界（如句号、问号、感叹号）进行分割。分割后，请按顺序输出每个段落，每个段落用特殊标记 ||| 分隔。不要添加任何解释性文字，只输出分割后的段落。\n\n待分割的文本：\n",
        );
        p.append(text);
        p
    }

    /// Parse a raw model reply: split on the delimiter, trim each piece,
    /// drop empty pieces, and fall back to the whole reply when nothing
    /// survives. Never fails for any reply.
    pub fn parse_segments(&self, raw: &str) -> (r: Result<Vec<String>, Error>)
        ensures
            r is Ok,
            r matches Ok(v) ==> v.deep_view() == spec_parse_segments(raw@),
            r matches Ok(v) ==> v@.len() >= 1,
    {
        let ghost s = raw@;
        let n = raw.unicode_len();
        let chars = chars_vec(raw);
        let mut result: Vec<String> = Vec::new();
        let mut start: usize = 0;
        proof {
            assert(result.deep_view() =~= Seq::<Seq<char>>::empty());
            assert(s.subrange(0, n as int) =~= s);
            assert(Seq::<Seq<char>>::empty() + clean_pieces(split_delim(s)) =~= clean_pieces(
                split_delim(s),
            ));
        }
        loop
            invariant_except_break
                clean_pieces(split_delim(s)) == result.deep_view() + clean_pieces(
                    split_delim(s.subrange(start as int, n as int)),
                ),
            invariant
                start <= n,
                n == s.len(),
                chars@ == s,
                raw@ == s,
            ensures
                clean_pieces(split_delim(s)) == result.deep_view(),
            decreases n - start,
        {
            let ghost suffix = s.subrange(start as int, n as int);
            let ghost old_dv = result.deep_view();
            let found = find_delim_in(&chars, start);
            proof {
                lemma_find_delim_props(suffix);
            }
            match found {
                Some(k) => {
                    let ghost piece_s = s.subrange(start as int, k as int);
                    let ghost h = spec_trim(piece_s);
                    let ghost rest = split_delim(s.subrange(k as int + 3, n as int));
                    proof {
                        lemma_delim_at_subrange(s, start as int, k - start);
                        assert forall|m: int| 0 <= m < k - start implies !has_delim_at(
                            suffix,
                            m,
                        ) by {
                            lemma_delim_at_subrange(s, start as int, m);
                        }
                        assert(find_delim(suffix) == Some((k - start) as nat));
                        assert(suffix.subrange(0, k - start) =~= piece_s);
                        assert(suffix.subrange(k - start + 3, suffix.len() as int) =~= s.subrange(
                            k as int + 3,
                            n as int,
                        ));
                        assert(split_delim(suffix) == seq![piece_s] + rest);
                        assert((seq![piece_s] + rest).len() > 0);
                        assert((seq![piece_s] + rest).first() == piece_s);
                        assert((seq![piece_s] + rest).drop_first() =~= rest);
                        if h.len() > 0 {
                            assert(clean_pieces(split_delim(suffix)) == seq![h] + clean_pieces(
                                rest,
                            ));
                        } else {
                            assert(clean_pieces(split_delim(suffix)) == clean_pieces(rest));
                        }
                    }
                    let piece = raw.substring_char(start, k);
                    let t = trim_str(piece);
                    if !t.as_str().is_empty() {
                        result.push(t);
                        proof {
                            assert(result.deep_view() =~= old_dv.push(h));
                            assert(old_dv + (seq![h] + clean_pieces(rest)) =~= old_dv.push(h)
                                + clean_pieces(rest));
                        }
                    }
                    start = k + 3;
                },
                None => {
                    let ghost h = spec_trim(suffix);
                    proof {
                        assert forall|m: int| !has_delim_at(suffix, m) by {
                            if m >= 0 {
                                lemma_delim_at_subrange(s, start as int, m);
                            }
                        }
                        assert(find_delim(suffix) is None);
                        assert(split_delim(suffix) == seq![suffix]);
                        assert(seq![suffix].first() == suffix);
                        assert(seq![suffix].drop_first() =~= Seq::<Seq<char>>::empty());
                        assert(clean_pieces(Seq::<Seq<char>>::empty())
                            =~= Seq::<Seq<char>>::empty());
                        if h.len() > 0 {
                            assert(seq![h] + Seq::<Seq<char>>::empty() =~= seq![h]);
                            assert(clean_pieces(split_delim(suffix)) == seq![h]);
                        } else {
                            assert(clean_pieces(split_delim(suffix))
                                =~= Seq::<Seq<char>>::empty());
                        }
                    }
                    let piece = raw.substring_char(start, n);
                    let t = trim_str(piece);
                    if !t.as_str().is_empty() {
                        result.push(t);
                        proof {
                            assert(result.deep_view() =~= old_dv.push(h));
                            assert(old_dv + seq![h] =~= old_dv.push(h));
                        }
                    } else {
                        proof {
                            assert(old_dv + Seq::<Seq<char>>::empty() =~= old_dv);
                        }
                    }
                    break ;
                },
            }
        }
        if result.len() == 0 {
            proof {
                assert(result.deep_view() =~= Seq::<Seq<char>>::empty());
            }
            let mut v: Vec<String> = Vec::new();
            v.push(raw.to_owned());
            proof {
                assert(v.deep_view() =~= seq![s]);
            }
            Ok(v)
        } else {
            proof {
                assert(result.deep_view().len() == result@.len());
            }
            Ok(result)
        }
    }
}

/// The characters of a string, in order, as a vector.
fn chars_vec(s: &str) -> (v: Vec<char>)
    ensures
        v@ == s@,
{
    let n = s.unicode_len();
    let mut v: Vec<char> = Vec::new();
    let mut i: usize = 0;
    while i < n
        invariant
            i <= n,
            n == s@.len(),
            v@ == s@.subrange(0, i as int),
        decreases n - i,
    {
        v.push(s.get_char(i));
        i = i + 1;
        proof {
            assert(v@ =~= s@.subrange(0, i as int));
        }
    }
    proof {
        assert(s@.subrange(0, n as int) =~= s@);
    }
    v
}

/// The first delimiter occurrence at or after `start`, if any.
fn find_delim_in(chars: &Vec<char>, start: usize) -> (r: Option<usize>)
    requires
        start <= chars@.len(),
    ensures
        match r {
            Some(k) => start <= k && has_delim_at(chars@, k as int) && forall|m: int|
                start <= m < k ==> !has_delim_at(chars@, m),
            None => forall|m: int| start <= m ==> !has_delim_at(chars@, m),
        },
{
    let n = chars.len();
    if n < 3 {
        return None;
    }
    let mut k = start;
    while k <= n - 3
        invariant
            start <= k,
            k <= n,
            n == chars@.len(),
            n >= 3,
            forall|m: int| start <= m < k ==> !has_delim_at(chars@, m),
        decreases n - k,
    {
        let c0 = chars[k];
        let c1 = chars[k + 1];
        let c2 = chars[k + 2];
        if c0 == '|' && c1 == '|' && c2 == '|' {
            proof {
                assert(chars@.subrange(k as int, k as int + 3) =~= delim());
            }
            return Some(k);
        }
        proof {
            if has_delim_at(chars@, k as int) {
                let sub = chars@.subrange(k as int, k as int + 3);
                assert(sub[0] == chars@[k as int]);
                assert(sub[1] == chars@[k as int + 1]);
                assert(sub[2] == chars@[k as int + 2]);
                assert(delim()[0] == '|' && delim()[1] == '|' && delim()[2] == '|');
            }
        }
        k = k + 1;
    }
    None
}

} // verus!
