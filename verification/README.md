# sop_builds

The model behind a build simulator for job affinities: from a filled-in build
form (an active job and seven equipment slots, each with two job choices and a
strength) it sums the affinity strength of every job, and from those sums and
the job data it works out which affinity bonuses (at 250, 400 and 600) each job
has unlocked.

- `src/` is the library, verified with Verus: the sums, the active bonuses, the
  decisions the page makes (which slots are greyed out, job lists by tier, jobs
  ordered by strength) and the laws that relate them.
- `app/` is the web server around it: reading the job data file, the HTTP
  routes and the HTML templates.
- `tests/` runs the library on concrete builds.
