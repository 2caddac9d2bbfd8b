# sec_authentication

A small service that authenticates its users with a password and, while they
keep it switched on, a Google Authenticator one-time code. Registration and
password reset go through a token sent by mail and valid for 15 minutes.

The library under `src/` is verified with Verus:

- `credential`: accounts, password hashes, the second factor, login verdicts,
  and the laws that tie them (a changed password logs in, a registration logs
  in, switching the second factor turns it the other way).
- `token`: mail tokens, their lifetime, and dropping expired or used ones.
- `routing`: where a token handed in by a user leads.
- `password`: the rules a new password must pass (length, confirmation,
  zxcvbn strength).
- `mail`: the shape of an email address and the text of the service's mails.
- `records`: the line-per-record text of the stores, and the proof that
  reading the text back gives the same lines that were written (the JSON
  form of each line is the program's, in `app/`).
- `crypto`, `authenticator`, `time`: the calls into sodiumoxide,
  google-authenticator and chrono, each with the contract the library relies on.

`app/` holds the interactive program: prompts, the files that stand in for the
database and the mailbox, and the JSON form of the records.
