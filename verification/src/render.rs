use vstd::prelude::*;
use crate::model::{deep_resources, deep_searches, lemma_deep_resources, Resource, SearchResult,
    SpecResource, SpecSearchResult};
use crate::sizefmt::{format_size, spec_digits, spec_format_size};
use crate::text::{append_bytes, text, text_bytes};

verus! {

/// `n` spaces.
pub open spec fn spec_spaces(n: int) -> Seq<u8> {
    Seq::new(
        if n < 0 {
            0
        } else {
            n as nat
        },
        |k: int| 32u8,
    )
}

/// `s` padded with spaces on the right to width `w`.
pub open spec fn spec_pad_right(s: Seq<u8>, w: int) -> Seq<u8> {
    s + spec_spaces(w - s.len())
}

/// `s` padded with spaces on the left to width `w`.
pub open spec fn spec_pad_left(s: Seq<u8>, w: int) -> Seq<u8> {
    spec_spaces(w - s.len()) + s
}

/// Decimal rendering of a possibly negative count.
pub open spec fn spec_int_digits(n: int) -> Seq<u8> {
    if n < 0 {
        seq![45u8] + spec_digits((-n) as nat)
    } else {
        spec_digits(n as nat)
    }
}

fn spaces(n: usize) -> (r: Vec<u8>)
    ensures
        r@ == spec_spaces(n as int),
{
    let mut r: Vec<u8> = Vec::new();
    let mut k: usize = 0;
    while k < n
        invariant
            k <= n,
            r@ == spec_spaces(k as int),
        decreases n - k,
    {
        r.push(32);
        proof {
            assert(r@ =~= spec_spaces((k + 1) as int));
        }
        k = k + 1;
    }
    r
}

fn int_digits(n: i32) -> (r: Vec<u8>)
    ensures
        r@ == spec_int_digits(n as int),
{
    let wide: i64 = n as i64;
    if wide < 0 {
        let mut r: Vec<u8> = Vec::new();
        r.push(45);
        let d = crate::sizefmt::digits((-wide) as u64);
        append_bytes(&mut r, &d);
        proof {
            assert(r@ =~= spec_int_digits(n as int));
        }
        r
    } else {
        crate::sizefmt::digits(wide as u64)
    }
}

/// One line of a directory listing: directories as "  name/", files as
/// "  name" padded to forty columns and the size right-aligned in ten.
pub open spec fn spec_resource_line(sr: SpecResource) -> Seq<u8> {
    if sr.is_dir {
        text_bytes("  "@) + sr.name + text_bytes("/\n"@)
    } else {
        text_bytes("  "@) + spec_pad_right(sr.name, 40) + text_bytes(" "@) + spec_pad_left(
            spec_format_size(sr.size),
            10,
        ) + text_bytes("\n"@)
    }
}

/// One line of a directory listing.
pub fn render_resource_line(r: &Resource) -> (out: Vec<u8>)
    ensures
        out@ == spec_resource_line(r.deep()),
{
    if r.is_dir {
        let mut out = text("  ");
        append_bytes(&mut out, &r.name);
        let tail = text("/\n");
        append_bytes(&mut out, &tail);
        proof {
            assert(out@ =~= spec_resource_line(r.deep()));
        }
        out
    } else {
        let mut out = text("  ");
        append_bytes(&mut out, &r.name);
        let pad1 = if r.name.len() < 40 {
            spaces(40 - r.name.len())
        } else {
            spaces(0)
        };
        append_bytes(&mut out, &pad1);
        let sp = text(" ");
        append_bytes(&mut out, &sp);
        let size = format_size(r.size);
        let pad2 = if size.len() < 10 {
            spaces(10 - size.len())
        } else {
            spaces(0)
        };
        append_bytes(&mut out, &pad2);
        append_bytes(&mut out, &size);
        let nl = text("\n");
        append_bytes(&mut out, &nl);
        proof {
            assert(pad1@ =~= spec_spaces(40 - r.name@.len()));
            assert(pad2@ =~= spec_spaces(10 - spec_format_size(r.size).len()));
            assert(out@ =~= spec_resource_line(r.deep()));
        }
        out
    }
}

/// The listing lines for a sequence of resources, in order.
pub open spec fn spec_ls_lines(items: Seq<SpecResource>) -> Seq<u8>
    decreases items.len(),
{
    if items.len() == 0 {
        Seq::empty()
    } else {
        spec_ls_lines(items.drop_last()) + spec_resource_line(items.last())
    }
}

/// What `ls` prints for a decoded resource: a line per child and a
/// summary, "(empty directory)" for an empty listing, and
/// "(not a directory)" where no listing is present.
pub open spec fn spec_render_ls(sr: SpecResource) -> Seq<u8> {
    match sr.items {
        Option::None => text_bytes("(not a directory)\n"@),
        Option::Some(items) => if items.len() == 0 {
            text_bytes("(empty directory)\n"@)
        } else {
            spec_ls_lines(items) + text_bytes("\n"@) + spec_int_digits(sr.num_files as int)
                + text_bytes(" files, "@) + spec_int_digits(sr.num_dirs as int) + text_bytes(
                " directories\n"@,
            )
        },
    }
}

/// Render a directory listing.
pub fn render_ls(r: &Resource) -> (out: Vec<u8>)
    ensures
        out@ == spec_render_ls(r.deep()),
{
    match &r.items {
        None => text("(not a directory)\n"),
        Some(items) => {
            if items.len() == 0 {
                proof {
                    assert(deep_resources(items@) =~= Seq::<SpecResource>::empty());
                }
                text("(empty directory)\n")
            } else {
                proof {
                    lemma_deep_resources(items@);
                }
                let ghost d = deep_resources(items@);
                let mut out: Vec<u8> = Vec::new();
                let mut k: usize = 0;
                proof {
                    assert(d.take(0) =~= Seq::<SpecResource>::empty());
                }
                while k < items.len()
                    invariant
                        k <= items@.len(),
                        d == deep_resources(items@),
                        d.len() == items@.len(),
                        forall|t: int| 0 <= t < items@.len() ==> d[t] == items@[t].deep(),
                        out@ == spec_ls_lines(d.take(k as int)),
                    decreases items@.len() - k,
                {
                    let line = render_resource_line(&items[k]);
                    append_bytes(&mut out, &line);
                    proof {
                        assert(d.take((k + 1) as int).drop_last() =~= d.take(k as int));
                        assert(d.take((k + 1) as int).last() == d[k as int]);
                    }
                    k = k + 1;
                }
                proof {
                    assert(d.take(d.len() as int) =~= d);
                }
                let t1 = text("\n");
                append_bytes(&mut out, &t1);
                let nf = int_digits(r.num_files);
                append_bytes(&mut out, &nf);
                let t2 = text(" files, ");
                append_bytes(&mut out, &t2);
                let nd = int_digits(r.num_dirs);
                append_bytes(&mut out, &nd);
                let t3 = text(" directories\n");
                append_bytes(&mut out, &t3);
                proof {
                    assert(out@ =~= spec_render_ls(r.deep()));
                }
                out
            }
        },
    }
}

/// What `info` prints for a decoded resource.
pub open spec fn spec_render_info(sr: SpecResource) -> Seq<u8> {
    text_bytes("  Name: "@) + sr.name + text_bytes("\n  Path: "@) + sr.path + text_bytes(
        "\n  Type: "@,
    ) + (if sr.is_dir {
        text_bytes("directory"@)
    } else {
        text_bytes("file"@)
    }) + text_bytes("\n  Size: "@) + spec_format_size(sr.size) + text_bytes("\n  Modified: "@)
        + sr.modified + text_bytes("\n"@) + (if sr.is_dir {
        text_bytes("  Files: "@) + spec_int_digits(sr.num_files as int) + text_bytes(
            "\n  Dirs:  "@,
        ) + spec_int_digits(sr.num_dirs as int) + text_bytes("\n"@)
    } else {
        Seq::empty()
    })
}

/// Render the details of one resource.
pub fn render_info(r: &Resource) -> (out: Vec<u8>)
    ensures
        out@ == spec_render_info(r.deep()),
{
    let mut out = text("  Name: ");
    append_bytes(&mut out, &r.name);
    let t1 = text("\n  Path: ");
    append_bytes(&mut out, &t1);
    append_bytes(&mut out, &r.path);
    let t2 = text("\n  Type: ");
    append_bytes(&mut out, &t2);
    let kind = if r.is_dir {
        text("directory")
    } else {
        text("file")
    };
    append_bytes(&mut out, &kind);
    let t3 = text("\n  Size: ");
    append_bytes(&mut out, &t3);
    let size = format_size(r.size);
    append_bytes(&mut out, &size);
    let t4 = text("\n  Modified: ");
    append_bytes(&mut out, &t4);
    append_bytes(&mut out, &r.modified);
    let t5 = text("\n");
    append_bytes(&mut out, &t5);
    if r.is_dir {
        let t6 = text("  Files: ");
        append_bytes(&mut out, &t6);
        let nf = int_digits(r.num_files);
        append_bytes(&mut out, &nf);
        let t7 = text("\n  Dirs:  ");
        append_bytes(&mut out, &t7);
        let nd = int_digits(r.num_dirs);
        append_bytes(&mut out, &nd);
        let t8 = text("\n");
        append_bytes(&mut out, &t8);
    }
    proof {
        assert(out@ =~= spec_render_info(r.deep()));
    }
    out
}

/// One line of search output.
pub open spec fn spec_search_line(sr: SpecSearchResult) -> Seq<u8> {
    (if sr.dir {
        text_bytes("  [dir ] "@)
    } else {
        text_bytes("  [file] "@)
    }) + sr.path + text_bytes("\n"@)
}

/// The search lines for a sequence of results, in order.
pub open spec fn spec_search_lines(rs: Seq<SpecSearchResult>) -> Seq<u8>
    decreases rs.len(),
{
    if rs.len() == 0 {
        Seq::empty()
    } else {
        spec_search_lines(rs.drop_last()) + spec_search_line(rs.last())
    }
}

/// What `search` prints: a no-results notice naming the query, or a line
/// per match and a count.
pub open spec fn spec_render_search(query: Seq<u8>, rs: Seq<SpecSearchResult>) -> Seq<u8> {
    if rs.len() == 0 {
        text_bytes("No results found for '"@) + query + text_bytes("'\n"@)
    } else {
        spec_search_lines(rs) + text_bytes("\n"@) + spec_digits(rs.len()) + text_bytes(
            " result(s)\n"@,
        )
    }
}

/// Render search results.
pub fn render_search(query: &Vec<u8>, results: &Vec<SearchResult>) -> (out: Vec<u8>)
    ensures
        out@ == spec_render_search(query@, deep_searches(results@)),
{
    let ghost d = deep_searches(results@);
    if results.len() == 0 {
        let mut out = text("No results found for '");
        append_bytes(&mut out, query);
        let t = text("'\n");
        append_bytes(&mut out, &t);
        proof {
            assert(out@ =~= spec_render_search(query@, d));
        }
        out
    } else {
        let mut out: Vec<u8> = Vec::new();
        let mut k: usize = 0;
        proof {
            assert(d.take(0) =~= Seq::<SpecSearchResult>::empty());
        }
        while k < results.len()
            invariant
                k <= results@.len(),
                d == deep_searches(results@),
                out@ == spec_search_lines(d.take(k as int)),
            decreases results@.len() - k,
        {
            let sr = &results[k];
            let mut line = if sr.dir {
                text("  [dir ] ")
            } else {
                text("  [file] ")
            };
            append_bytes(&mut line, &sr.path);
            let nl = text("\n");
            append_bytes(&mut line, &nl);
            append_bytes(&mut out, &line);
            proof {
                assert(line@ =~= spec_search_line(d[k as int]));
                assert(d.take((k + 1) as int).drop_last() =~= d.take(k as int));
                assert(d.take((k + 1) as int).last() == d[k as int]);
            }
            k = k + 1;
        }
        proof {
            assert(d.take(d.len() as int) =~= d);
        }
        let t1 = text("\n");
        append_bytes(&mut out, &t1);
        let n = crate::sizefmt::digits(results.len() as u64);
        append_bytes(&mut out, &n);
        let t2 = text(" result(s)\n");
        append_bytes(&mut out, &t2);
        proof {
            assert(out@ =~= spec_render_search(query@, d));
        }
        out
    }
}

/// What a successful login prints: the server and a truncated preview of
/// the token (its first twenty bytes).
pub open spec fn spec_render_login(server: Seq<u8>, token: Seq<u8>) -> Seq<u8> {
    text_bytes("\u{2713} Logged in to "@) + server + text_bytes("\n  Token: "@) + token.take(
        if token.len() < 20 {
            token.len() as int
        } else {
            20
        },
    ) + text_bytes("...\n"@)
}

/// Render the outcome of a successful login.
pub fn render_login(server: &Vec<u8>, token: &Vec<u8>) -> (out: Vec<u8>)
    ensures
        out@ == spec_render_login(server@, token@),
{
    let mut out = text("\u{2713} Logged in to ");
    append_bytes(&mut out, server);
    let t1 = text("\n  Token: ");
    append_bytes(&mut out, &t1);
    let cut: usize = if token.len() < 20 {
        token.len()
    } else {
        20
    };
    let ghost head = out@;
    let mut k: usize = 0;
    proof {
        assert(token@.take(0) =~= Seq::<u8>::empty());
        assert(out@ =~= head + token@.take(0));
    }
    while k < cut
        invariant
            cut <= token@.len(),
            k <= cut,
            out@ == head + token@.take(k as int),
        decreases cut - k,
    {
        out.push(token[k]);
        proof {
            assert(token@.take((k + 1) as int) =~= token@.take(k as int).push(
                token@[k as int],
            ));
            assert(out@ =~= head + token@.take((k + 1) as int));
        }
        k = k + 1;
    }
    let t2 = text("...\n");
    append_bytes(&mut out, &t2);
    proof {
        assert(out@ =~= spec_render_login(server@, token@));
    }
    out
}

} // verus!
