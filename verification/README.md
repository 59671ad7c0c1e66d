# erg_lower

Lowering of Erg modules: checks the types of a syntax tree and makes a typed tree of it.

Names, their types and their scopes are kept by a context that is not part of this crate. It is
opened with what `ASTLowerer::opening` says: a scope for the module inside the builtins. The
lowerer (`lower::ASTLowerer`) never calls it: `ASTLowerer::lower` runs through the replies that the
context has given so far, and either comes to the next query or to the end. The caller has the
context answer the query, adds the reply to the list, and calls again. Some expressions have no
lowering: `ast::Module::is_supported` tells whether a module holds any, and `ASTLowerer::try_lower`
gives nothing where it comes to one.

| Module      | What it holds                                                              |
|-------------|----------------------------------------------------------------------------|
| `lower`     | the lowerer                                                                |
| `semantics` | what lowering means, as functions of the syntax tree and of the replies    |
| `laws`      | what holds of lowering as a whole                                          |
| `proofs`    | what every step keeps: scopes, errors, the order of the queries, the syntax |
| `replay`    | that more replies continue a run and never change it                       |
| `support`   | that supported expressions have a lowering                                 |
| `context`   | queries, replies and scopes                                                |
| `ast`, `hir` | the syntax tree and the typed tree                                        |
| `ty`        | types, as far as lowering tells them apart                                 |
| `error`, `token`, `text` | errors and their messages, tokens, texts                      |
| `outside`   | what is taken from `erg_common` and `erg_parser`                           |

`app/` turns the syntax trees of `erg_parser` and the types of `erg_common` into those of this crate
and runs the dialogue between the lowerer and a context.
