# vpnman

A manager of OpenVPN client profiles. Profiles are generated from editable templates; their
certificates and keys come from a Minica certificate authority service.

The logic is a library written in Verus: every function states in its contract what it returns,
and Verus proves it. The program around the library reads and writes files, talks to Minica and
serves the pages.

## Layout

- `src/` is the library.
  - `text`, `number`, `order`, `encoding`, `string_map`, `sorting`: texts, numbers, maps and lists.
  - `variables`, `tokens`, `templates`, `template_names`, `rendering`, `editing`: templates, their
    placeholders and the variables that these name.
  - `placeholders`, `self_contained`: what the placeholders of a template come to in a profile.
  - `minica`, `issue`, `issue_flow`, `issue_outcome`, `requests`, `trials`: what is asked of Minica,
    and the courses of issuing a profile and of trying the settings.
  - `storage`, `clock`, `listing`: identifiers, places, instants and lists.
  - `config`, `security`: the configuration, and which requests are let through.
  - `api`, `openapi`, `html`, `layout`, `assets`, `pages`: what is answered and shown.
  - `outside`: the functions of other crates that the library calls, with what is believed of
    them.
- `tests/` runs the library on concrete values.
- `app/` is the program.

Proof functions whose names begin with `law_` state what holds of several functions together, such
as that a template that was saved is loaded as it was saved, that no request on behalf of another
site is let through to write, or that a generated profile holds the value of each placeholder in
its place.

## Courses

What alternates between decisions and work on the disk or the network is written as a course: a
state, an event, and the turn that follows from them, which is the next state and the next action.
The program performs the action and hands back what it brought. `issue_flow` holds the course of
issuing a profile, `trials` that of trying the certificate defaults.

## Running

The program reads `config.yaml`, or the file given with `--config` or `-c`:

```yaml
data_dir: data
bind:
  host: 127.0.0.1
  port: 8080
basic_auth:
  enabled: false
  username: admin
  password: change-me
```

The pages stand under `/vpnman/`, the programming interface under `/vpnman/api/`, and its explorer
at `/vpnman/api/swagger`. All assets are embedded in the program.

Generated profiles hold private keys, and the settings for Minica hold its password: treat the data
directory as sensitive.
