# common

Verified domain library of the eduxal sign-in services.

- `src/` — the library, verified with Verus:
  - `phone`, `id`, `time`: E.164 phone numbers, 12-byte object ids (hex text),
    UTC date-times (timestamps, RFC 3339 text);
  - `session`, `user`, `verification`: the stored records, and `attribute`,
    the DynamoDB item model they are written to and read from;
  - `token`, `bundle`, `paseto`: typed access / refresh / setup tokens, their
    JSON payload, its PASETO v4 local sealing, and the bundle handed to clients;
  - `auth`: the decisions of the login, verify, setup and refresh flows;
  - `messenger`: the decisions of the OTP messenger batch handler;
  - `decimal`, `json`, `text`: decimal numbers, JSON strings and flat
    objects, and character-level text operations.
- `app/` — the Lambda services: HTTP routing, AWS calls, serde wire forms.
- `tests/` — tests of the library.
