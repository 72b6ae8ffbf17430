//! Markup tokens and the collection of anchor hrefs.
//!
//! The HTML tokenizer is an external collaborator: it turns a document body
//! into a stream of markup tokens, which the caller hands over as plain
//! `HtmlToken` values. This module holds the logic applied to that stream:
//! every `href` attribute of every `a` start tag is captured, in document
//! order; all other tokens are ignored.

use vstd::prelude::*;

verus! {

/// One attribute of a markup tag, as the tokenizer reported it.
#[derive(Debug, Clone)]
pub struct HtmlAttr {
    pub name: String,
    pub value: String,
}

/// One markup token. Only start tags carry anything the crawler reads;
/// every other kind of token (end tags, text, comments, parse errors) is
/// `Other`.
#[derive(Debug, Clone)]
pub enum HtmlToken {
    StartTag { name: String, attrs: Vec<HtmlAttr> },
    Other,
}

/// The string each owned string of a sequence views as.
pub open spec fn strs_view(s: Seq<String>) -> Seq<Seq<char>> {
    s.map_values(|t: String| t@)
}

/// The hrefs one attribute contributes: its value when it is named `href`,
/// nothing otherwise.
pub open spec fn attr_href(a: HtmlAttr) -> Seq<Seq<char>> {
    if a.name@ == "href"@ {
        seq![a.value@]
    } else {
        Seq::empty()
    }
}

/// The hrefs of a tag's attribute list, in attribute order.
pub open spec fn attr_hrefs(attrs: Seq<HtmlAttr>) -> Seq<Seq<char>>
    decreases attrs.len(),
{
    if attrs.len() == 0 {
        Seq::empty()
    } else {
        attr_hrefs(attrs.drop_last()) + attr_href(attrs.last())
    }
}

/// The hrefs one token contributes: those of its attributes when it is an
/// `a` start tag, nothing otherwise.
pub open spec fn token_hrefs(t: HtmlToken) -> Seq<Seq<char>> {
    match t {
        HtmlToken::StartTag { name, attrs } => {
            if name@ == "a"@ {
                attr_hrefs(attrs@)
            } else {
                Seq::empty()
            }
        },
        HtmlToken::Other => Seq::empty(),
    }
}

/// The hrefs of a whole token stream, in document order.
pub open spec fn tokens_hrefs(ts: Seq<HtmlToken>) -> Seq<Seq<char>>
    decreases ts.len(),
{
    if ts.len() == 0 {
        Seq::empty()
    } else {
        tokens_hrefs(ts.drop_last()) + token_hrefs(ts.last())
    }
}

proof fn lemma_attr_hrefs_step(attrs: Seq<HtmlAttr>, i: int)
    requires
        0 <= i < attrs.len(),
    ensures
        attr_hrefs(attrs.take(i + 1)) == attr_hrefs(attrs.take(i)) + attr_href(attrs[i]),
{
    let t = attrs.take(i + 1);
    assert(t.drop_last() =~= attrs.take(i));
    assert(t.last() == attrs[i]);
}

proof fn lemma_tokens_hrefs_step(ts: Seq<HtmlToken>, i: int)
    requires
        0 <= i < ts.len(),
    ensures
        tokens_hrefs(ts.take(i + 1)) == tokens_hrefs(ts.take(i)) + token_hrefs(ts[i]),
{
    let t = ts.take(i + 1);
    assert(t.drop_last() =~= ts.take(i));
    assert(t.last() == ts[i]);
}

/// The queue of raw link strings found so far, fed one token at a time.
#[derive(Debug)]
pub struct LinkQueue {
    links: Vec<String>,
}

impl View for LinkQueue {
    type V = Seq<Seq<char>>;

    closed spec fn view(&self) -> Seq<Seq<char>> {
        strs_view(self.links@)
    }
}

impl LinkQueue {
    pub fn new() -> (q: LinkQueue)
        ensures
            q@ == Seq::<Seq<char>>::empty(),
    {
        let q = LinkQueue { links: Vec::new() };
        proof {
            assert(q@ =~= Seq::<Seq<char>>::empty());
        }
        q
    }

    /// Append the hrefs this token carries: the values of the `href`
    /// attributes of an `a` start tag, in attribute order.
    pub fn process_token(&mut self, token: &HtmlToken)
        ensures
            final(self)@ == old(self)@ + token_hrefs(*token),
    {
        match token {
            HtmlToken::StartTag { name, attrs } => {
                let anchor: String = "a".to_owned();
                let href: String = "href".to_owned();
                if *name == anchor {
                    let mut i: usize = 0;
                    while i < attrs.len()
                        invariant
                            i <= attrs.len(),
                            anchor@ == "a"@,
                            href@ == "href"@,
                            name@ == "a"@,
                            self@ == old(self)@ + attr_hrefs(attrs@.take(i as int)),
                        decreases attrs.len() - i,
                    {
                        if attrs[i].name == href {
                            let v = attrs[i].value.clone();
                            let ghost before = self@;
                            self.links.push(v);
                            proof {
                                assert(self@ =~= before + seq![attrs@[i as int].value@]);
                                lemma_attr_hrefs_step(attrs@, i as int);
                            }
                        } else {
                            proof {
                                lemma_attr_hrefs_step(attrs@, i as int);
                                assert(self@ =~= self@ + Seq::<Seq<char>>::empty());
                            }
                        }
                        i = i + 1;
                    }
                    proof {
                        assert(attrs@.take(attrs@.len() as int) =~= attrs@);
                    }
                } else {
                    proof {
                        assert(self@ =~= old(self)@ + Seq::<Seq<char>>::empty());
                    }
                }
            },
            HtmlToken::Other => {
                proof {
                    assert(self@ =~= old(self)@ + Seq::<Seq<char>>::empty());
                }
            },
        }
    }

    /// Hand the collected links out, in the order they were found.
    pub fn into_links(self) -> (r: Vec<String>)
        ensures
            strs_view(r@) == self@,
    {
        self.links
    }
}

/// All hrefs of a token stream, in document order.
pub fn collect_hrefs(tokens: &Vec<HtmlToken>) -> (hrefs: Vec<String>)
    ensures
        strs_view(hrefs@) == tokens_hrefs(tokens@),
{
    let mut queue = LinkQueue::new();
    let mut i: usize = 0;
    while i < tokens.len()
        invariant
            i <= tokens.len(),
            queue@ == tokens_hrefs(tokens@.take(i as int)),
        decreases tokens.len() - i,
    {
        queue.process_token(&tokens[i]);
        proof {
            lemma_tokens_hrefs_step(tokens@, i as int);
        }
        i = i + 1;
    }
    proof {
        assert(tokens@.take(tokens@.len() as int) =~= tokens@);
    }
    queue.into_links()
}

} // verus!
