# devhub

The NEAR DevHub contracts as a verified library: posts and their reply tree,
funding proposals and requests for proposals (RFPs), communities and their
add-ons, label-based access control with teams and restricted labels, the
web page served for links (web4), state migrations, and the small contracts
that live on the accounts below the hub (the community factory, each
community account and its discussions account).

Every public function of `src/` carries a contract in `requires`/`ensures`,
stated over mathematical views (`Seq`, `Set`, `Map`), and is proved by Verus.
Calls that leave the contract (writes to the social database, calls to other
contracts, account creation) are returned as plain values that describe the
call; `app/` reads the call environment, turns those values into promises and
fails refused calls with their messages.

Layout:

- `src/contract/` — the hub contract: posts, proposals, RFPs, communities and
  add-ons, labels and access control, each with the laws it keeps.
- `src/access_control/` — rules on labels, members and teams, permissions.
- `src/post/`, `src/proposal/`, `src/rfp/`, `src/community.rs` — the data types
  and their versions.
- `src/assoc.rs`, `src/index.rs` — the maps and label indexes the state is kept in.
- `src/community_factory.rs`, `src/community_contract.rs`,
  `src/discussions_contract.rs` — the contracts on the sub-accounts.
- `src/web4.rs`, `src/repost.rs`, `src/notify.rs` — the page, the feed posts
  and the notifications the hub writes.
- `src/migrations.rs` — the order of the state migrations and their data changes.
- `tests/` — tests on concrete values.
- `app/` — runtime glue around the library.
